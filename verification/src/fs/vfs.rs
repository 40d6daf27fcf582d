//! File operations: the interface file descriptors use, and its
//! implementation for read-only ramdisk files.

use vstd::prelude::*;
use crate::fs::ramdisk::{RamdiskFile, Errno};

verus! {

/// Seek origin.
#[derive(Debug, Clone, Copy, PartialEq, Eq, Structural)]
pub enum Whence {
    /// From the beginning of the file
    Start,
    /// From the current position
    Cur,
    /// From the end of the file
    End,
}

/// Operations on an open file. `image` holds the bytes of the storage the
/// file lives in.
pub trait FileOps {
    /// The file's state is consistent.
    spec fn valid(&self) -> bool;

    /// The file lies within `image`.
    spec fn fits(&self, image: Seq<u8>) -> bool;

    /// Read into `buf` from the current position; the number of bytes read.
    fn read(&mut self, image: &[u8], buf: &mut [u8]) -> Result<usize, Errno>
        requires
            old(self).valid(),
            old(self).fits(image@),
    ;

    /// Write `buf` at the current position; the number of bytes written.
    fn write(&mut self, buf: &[u8]) -> Result<usize, Errno>;

    /// The target of a seek can be computed.
    spec fn seek_in_range(&self, offset: i64, whence: Whence) -> bool;

    /// Move the current position; the new position.
    fn seek(&mut self, offset: i64, whence: Whence) -> Result<u64, Errno>
        requires
            old(self).valid(),
            old(self).seek_in_range(offset, whence),
    ;
}

/// A read-only ramdisk file with a current position.
pub struct RamdiskFileOps {
    /// The file's entry
    pub file: RamdiskFile,
    /// Current position
    pub offset: u64,
    /// File size
    pub size: u64,
}

/// The position a seek asks for, before clamping: `None` when negative.
pub open spec fn seek_target(offset: i64, whence: Whence, current: u64, size: u64) -> Option<int> {
    let base: int = match whence {
        Whence::Start => 0,
        Whence::Cur => current as int,
        Whence::End => size as int,
    };
    if base + offset < 0 {
        None
    } else {
        Some(base + offset)
    }
}

/// Law: a seek by `k` from the current position `p`, then by `-k` from the
/// new one, comes back to `p`, when `p + k` lies within the file.
pub proof fn lemma_seek_cur_round_trip(p: u64, k: i64, size: u64)
    requires
        p <= size,
        0 <= p + k <= size,
        k > i64::MIN,
    ensures
        seek_target(k, Whence::Cur, p, size) == Some(p + k),
        seek_target(-k as i64, Whence::Cur, (p + k) as u64, size) == Some(p as int),
{
}

impl RamdiskFileOps {
    /// The position lies within the file, whose size is the entry's.
    pub open spec fn wf(&self) -> bool {
        self.offset <= self.size && self.size == self.file.size
    }

    /// Open a file at position 0.
    pub fn new(file: RamdiskFile) -> (r: RamdiskFileOps)
        ensures
            r.wf(),
            r.file == file && r.offset == 0 && r.size == file.size,
    {
        RamdiskFileOps { file, offset: 0, size: file.size as u64 }
    }

    /// The current position.
    pub fn get_offset(&self) -> (r: u64)
        ensures
            r == self.offset,
    {
        self.offset
    }
}

impl FileOps for RamdiskFileOps {
    open spec fn valid(&self) -> bool {
        self.wf()
    }

    open spec fn fits(&self, image: Seq<u8>) -> bool {
        self.file.data_offset + self.size <= image.len()
    }

    open spec fn seek_in_range(&self, offset: i64, whence: Whence) -> bool {
        match whence {
            Whence::Start => true,
            Whence::Cur => self.offset + offset <= i64::MAX,
            Whence::End => self.size + offset <= i64::MAX,
        }
    }

    /// Copy up to `buf.len()` bytes from the current position and move past
    /// them; 0 at the end of the file.
    fn read(&mut self, image: &[u8], buf: &mut [u8]) -> (r: Result<usize, Errno>)
        ensures
            final(self).wf(),
            final(self).file == old(self).file && final(self).size == old(self).size,
            ({
                let n = if old(buf)@.len() < old(self).size - old(self).offset {
                    old(buf)@.len() as int
                } else {
                    old(self).size - old(self).offset
                };
                let start = old(self).file.data_offset + old(self).offset;
                &&& r == Ok::<usize, Errno>(n as usize)
                &&& final(self).offset == old(self).offset + n
                &&& final(buf)@ == image@.subrange(start, start + n) + old(buf)@.subrange(n, old(buf)@.len() as int)
            }),
    {
        assert(self.fits(image@));
        assert(self.wf());
        let image_len = image.len();
        let remaining = (self.size - self.offset) as usize;
        if remaining == 0 {
            assert(buf@ =~= image@.subrange(self.file.data_offset + self.offset, self.file.data_offset + self.offset) + buf@.subrange(0, buf@.len() as int));
            return Ok(0);
        }
        let to_read = if buf.len() < remaining { buf.len() } else { remaining };
        let data_offset = self.file.data_offset as usize + self.offset as usize;
        let mut i: usize = 0;
        while i < to_read
            invariant
                to_read <= buf@.len(),
                data_offset + to_read <= image_len,
                image_len == image@.len(),
                buf@.len() == old(buf)@.len(),
                i <= to_read,
                forall|j: int| 0 <= j < i ==> buf@[j] == image@[data_offset + j],
                forall|j: int| i <= j < buf@.len() ==> buf@[j] == old(buf)@[j],
            decreases to_read - i,
        {
            buf[i] = image[data_offset + i];
            i = i + 1;
        }
        self.offset = self.offset + to_read as u64;
        assert(buf@ =~= image@.subrange(data_offset as int, data_offset + to_read) + old(buf)@.subrange(
            to_read as int,
            old(buf)@.len() as int,
        ));
        Ok(to_read)
    }

    /// Ramdisk files are read-only.
    fn write(&mut self, buf: &[u8]) -> (r: Result<usize, Errno>)
        ensures
            r == Err::<usize, Errno>(Errno::EROFS),
            *final(self) == *old(self),
    {
        Err(Errno::EROFS)
    }

    /// Move to `offset` from the origin `whence`, clamped to the file size;
    /// `EINVAL` for a negative target, the position unchanged.
    fn seek(&mut self, offset: i64, whence: Whence) -> (r: Result<u64, Errno>)
        ensures
            final(self).wf(),
            final(self).file == old(self).file && final(self).size == old(self).size,
            match seek_target(offset, whence, old(self).offset, old(self).size) {
                None => r == Err::<u64, Errno>(Errno::EINVAL) && final(self).offset == old(self).offset,
                Some(t) => {
                    let p = if t > old(self).size { old(self).size as int } else { t };
                    r == Ok::<u64, Errno>(p as u64) && final(self).offset == p
                },
            },
            whence is Start && 0 <= offset <= old(self).size ==> r == Ok::<u64, Errno>(offset as u64)
                && final(self).offset == offset,
            whence is Cur && 0 <= old(self).offset + offset <= old(self).size ==> r == Ok::<u64, Errno>(
                (old(self).offset + offset) as u64,
            ) && final(self).offset == old(self).offset + offset,
            whence is End && 0 <= old(self).size + offset <= old(self).size ==> r == Ok::<u64, Errno>(
                (old(self).size + offset) as u64,
            ) && final(self).offset == old(self).size + offset,
    {
        let mut new_offset: u64 = match whence {
            Whence::Start => {
                if offset < 0 {
                    return Err(Errno::EINVAL);
                }
                offset as u64
            },
            Whence::Cur => {
                let current = self.offset as i64;
                let new = current + offset;
                if new < 0 {
                    return Err(Errno::EINVAL);
                }
                new as u64
            },
            Whence::End => {
                let end = self.size as i64;
                let new = end + offset;
                if new < 0 {
                    return Err(Errno::EINVAL);
                }
                new as u64
            },
        };
        if new_offset > self.size {
            new_offset = self.size;
        }
        self.offset = new_offset;
        Ok(new_offset)
    }
}

} // verus!
