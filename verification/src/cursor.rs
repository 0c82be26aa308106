use vstd::prelude::*;

use crate::bytes::{copy_range, copy_trimmed, get_i32, get_u16, get_u32, get_u64, get_u8, le16,
    le32, le64, le_i32, trim_pad};
use crate::error::LasError;

verus! {

/// A positioned, fallible reader over an in-memory byte buffer.
///
/// Every read either consumes exactly the requested number of bytes and
/// advances the position by that much, or fails with `TruncatedInput` and
/// leaves the cursor untouched; a failed read never partially advances.
pub struct ByteCursor {
    pub data: Vec<u8>,
    pub pos: usize,
}

impl ByteCursor {
    /// The cursor position never passes the end of the buffer.
    pub open spec fn wf(self) -> bool {
        self.pos <= self.data.len()
    }

    pub fn new(data: Vec<u8>) -> (c: ByteCursor)
        ensures
            c.data@ == data@,
            c.pos == 0,
            c.wf(),
    {
        ByteCursor { data, pos: 0 }
    }

    /// Gives the buffer back, ending the cursor's life.
    pub fn into_data(self) -> (r: Vec<u8>)
        ensures
            r@ == self.data@,
    {
        self.data
    }

    /// How many bytes remain in front of the position.
    pub fn remaining(&self) -> (r: usize)
        requires
            self.wf(),
        ensures
            r == self.data.len() - self.pos,
    {
        self.data.len() - self.pos
    }

    /// The error a read of `n` bytes fails with when `n` bytes are not there.
    pub open spec fn trunc_err(self, n: int) -> LasError {
        LasError::TruncatedInput {
            offset: self.pos,
            needed: n as usize,
            available: (self.data.len() - self.pos) as usize,
        }
    }

    pub fn read_u8(&mut self) -> (r: Result<u8, LasError>)
        requires
            old(self).wf(),
        ensures
            final(self).wf(),
            final(self).data@ == old(self).data@,
            old(self).pos + 1 <= old(self).data.len() ==> r == Ok::<u8, LasError>(
                old(self).data@[old(self).pos as int],
            ) && final(self).pos == old(self).pos + 1,
            old(self).pos + 1 > old(self).data.len() ==> r == Err::<u8, LasError>(
                old(self).trunc_err(1),
            ) && final(self).pos == old(self).pos,
    {
        if self.pos < self.data.len() {
            let b = get_u8(&self.data, self.pos);
            self.pos = self.pos + 1;
            Ok(b)
        } else {
            Err(LasError::TruncatedInput {
                offset: self.pos,
                needed: 1,
                available: self.data.len() - self.pos,
            })
        }
    }

    pub fn read_u16(&mut self) -> (r: Result<u16, LasError>)
        requires
            old(self).wf(),
        ensures
            final(self).wf(),
            final(self).data@ == old(self).data@,
            old(self).pos + 2 <= old(self).data.len() ==> (r matches Ok(v) && v as int == le16(
                old(self).data@,
                old(self).pos as int,
            )) && final(self).pos == old(self).pos + 2,
            old(self).pos + 2 > old(self).data.len() ==> r == Err::<u16, LasError>(
                old(self).trunc_err(2),
            ) && final(self).pos == old(self).pos,
    {
        if self.data.len() - self.pos >= 2 {
            let v = get_u16(&self.data, self.pos);
            self.pos = self.pos + 2;
            Ok(v)
        } else {
            Err(LasError::TruncatedInput {
                offset: self.pos,
                needed: 2,
                available: self.data.len() - self.pos,
            })
        }
    }

    pub fn read_u32(&mut self) -> (r: Result<u32, LasError>)
        requires
            old(self).wf(),
        ensures
            final(self).wf(),
            final(self).data@ == old(self).data@,
            old(self).pos + 4 <= old(self).data.len() ==> (r matches Ok(v) && v as int == le32(
                old(self).data@,
                old(self).pos as int,
            )) && final(self).pos == old(self).pos + 4,
            old(self).pos + 4 > old(self).data.len() ==> r == Err::<u32, LasError>(
                old(self).trunc_err(4),
            ) && final(self).pos == old(self).pos,
    {
        if self.data.len() - self.pos >= 4 {
            let v = get_u32(&self.data, self.pos);
            self.pos = self.pos + 4;
            Ok(v)
        } else {
            Err(LasError::TruncatedInput {
                offset: self.pos,
                needed: 4,
                available: self.data.len() - self.pos,
            })
        }
    }

    pub fn read_u64(&mut self) -> (r: Result<u64, LasError>)
        requires
            old(self).wf(),
        ensures
            final(self).wf(),
            final(self).data@ == old(self).data@,
            old(self).pos + 8 <= old(self).data.len() ==> (r matches Ok(v) && v as int == le64(
                old(self).data@,
                old(self).pos as int,
            )) && final(self).pos == old(self).pos + 8,
            old(self).pos + 8 > old(self).data.len() ==> r == Err::<u64, LasError>(
                old(self).trunc_err(8),
            ) && final(self).pos == old(self).pos,
    {
        if self.data.len() - self.pos >= 8 {
            let v = get_u64(&self.data, self.pos);
            self.pos = self.pos + 8;
            Ok(v)
        } else {
            Err(LasError::TruncatedInput {
                offset: self.pos,
                needed: 8,
                available: self.data.len() - self.pos,
            })
        }
    }

    pub fn read_i32(&mut self) -> (r: Result<i32, LasError>)
        requires
            old(self).wf(),
        ensures
            final(self).wf(),
            final(self).data@ == old(self).data@,
            old(self).pos + 4 <= old(self).data.len() ==> (r matches Ok(v) && v as int == le_i32(
                old(self).data@,
                old(self).pos as int,
            )) && final(self).pos == old(self).pos + 4,
            old(self).pos + 4 > old(self).data.len() ==> r == Err::<i32, LasError>(
                old(self).trunc_err(4),
            ) && final(self).pos == old(self).pos,
    {
        if self.data.len() - self.pos >= 4 {
            let v = get_i32(&self.data, self.pos);
            self.pos = self.pos + 4;
            Ok(v)
        } else {
            Err(LasError::TruncatedInput {
                offset: self.pos,
                needed: 4,
                available: self.data.len() - self.pos,
            })
        }
    }

    /// Reads an IEEE-754 single as its raw bit pattern.
    pub fn read_f32_bits(&mut self) -> (r: Result<u32, LasError>)
        requires
            old(self).wf(),
        ensures
            final(self).wf(),
            final(self).data@ == old(self).data@,
            old(self).pos + 4 <= old(self).data.len() ==> (r matches Ok(v) && v as int == le32(
                old(self).data@,
                old(self).pos as int,
            )) && final(self).pos == old(self).pos + 4,
            old(self).pos + 4 > old(self).data.len() ==> r == Err::<u32, LasError>(
                old(self).trunc_err(4),
            ) && final(self).pos == old(self).pos,
    {
        self.read_u32()
    }

    /// Reads an IEEE-754 double as its raw bit pattern.
    pub fn read_f64_bits(&mut self) -> (r: Result<u64, LasError>)
        requires
            old(self).wf(),
        ensures
            final(self).wf(),
            final(self).data@ == old(self).data@,
            old(self).pos + 8 <= old(self).data.len() ==> (r matches Ok(v) && v as int == le64(
                old(self).data@,
                old(self).pos as int,
            )) && final(self).pos == old(self).pos + 8,
            old(self).pos + 8 > old(self).data.len() ==> r == Err::<u64, LasError>(
                old(self).trunc_err(8),
            ) && final(self).pos == old(self).pos,
    {
        self.read_u64()
    }

    /// Reads `n` raw bytes.
    pub fn read_bytes(&mut self, n: usize) -> (r: Result<Vec<u8>, LasError>)
        requires
            old(self).wf(),
        ensures
            final(self).wf(),
            final(self).data@ == old(self).data@,
            old(self).pos + n <= old(self).data.len() ==> (r matches Ok(v) && v@ == old(
                self,
            ).data@.subrange(old(self).pos as int, old(self).pos + n)) && final(self).pos == old(
                self,
            ).pos + n,
            old(self).pos + n > old(self).data.len() ==> r == Err::<Vec<u8>, LasError>(
                old(self).trunc_err(n as int),
            ) && final(self).pos == old(self).pos,
    {
        if self.data.len() - self.pos < n {
            return Err(LasError::TruncatedInput {
                offset: self.pos,
                needed: n,
                available: self.data.len() - self.pos,
            });
        }
        let v = copy_range(&self.data, self.pos, n);
        self.pos = self.pos + n;
        Ok(v)
    }

    /// Reads a fixed-width string field of `n` bytes and removes its
    /// trailing NUL and space padding.
    pub fn read_fixed_string(&mut self, n: usize) -> (r: Result<Vec<u8>, LasError>)
        requires
            old(self).wf(),
        ensures
            final(self).wf(),
            final(self).data@ == old(self).data@,
            old(self).pos + n <= old(self).data.len() ==> (r matches Ok(v) && v@ == trim_pad(
                old(self).data@.subrange(old(self).pos as int, old(self).pos + n),
            )) && final(self).pos == old(self).pos + n,
            old(self).pos + n > old(self).data.len() ==> r == Err::<Vec<u8>, LasError>(
                old(self).trunc_err(n as int),
            ) && final(self).pos == old(self).pos,
    {
        if self.data.len() - self.pos < n {
            return Err(LasError::TruncatedInput {
                offset: self.pos,
                needed: n,
                available: self.data.len() - self.pos,
            });
        }
        let v = copy_trimmed(&self.data, self.pos, n);
        self.pos = self.pos + n;
        Ok(v)
    }

    /// Moves the position forward to `target`, never backward.
    pub fn skip_to(&mut self, target: usize) -> (r: Result<(), LasError>)
        requires
            old(self).wf(),
            old(self).pos <= target,
        ensures
            final(self).wf(),
            final(self).data@ == old(self).data@,
            target <= old(self).data.len() ==> r == Ok::<(), LasError>(()) && final(self).pos
                == target,
            target > old(self).data.len() ==> r == Err::<(), LasError>(
                old(self).trunc_err(target - old(self).pos),
            ) && final(self).pos == old(self).pos,
    {
        if target <= self.data.len() {
            self.pos = target;
            Ok(())
        } else {
            Err(LasError::TruncatedInput {
                offset: self.pos,
                needed: target - self.pos,
                available: self.data.len() - self.pos,
            })
        }
    }
}

} // verus!
