//! Bounds-checked reader over an immutable byte buffer. Every read either
//! returns the requested bytes and advances the position, or fails with
//! `TruncatedInput` and leaves the cursor unchanged; no read ever goes past
//! the end of the buffer.

use vstd::prelude::*;
use vstd::slice::{slice_index_get, slice_subrange, slice_to_vec};

use crate::bytes::{be_u16, be_u32, be_u64};
use crate::errors::BridgeError;

verus! {

/// The count a length prefix of 8, 16 or 32 bits announces at `pos`.
pub open spec fn length_prefix_value(bytes: Seq<u8>, pos: int, len_prefix_bits: u32) -> int
    recommends
        len_prefix_bits == 8 || len_prefix_bits == 16 || len_prefix_bits == 32,
        pos + len_prefix_bits as int / 8 <= bytes.len(),
{
    if len_prefix_bits == 8 {
        bytes[pos] as int
    } else if len_prefix_bits == 16 {
        be_u16(bytes.subrange(pos, pos + 2)) as int
    } else {
        be_u32(bytes.subrange(pos, pos + 4)) as int
    }
}

/// A position within an immutable byte buffer.
pub struct BinaryCursor<'a> {
    data: &'a [u8],
    pos: usize,
}

impl<'a> BinaryCursor<'a> {
    /// The bytes the cursor reads from.
    pub closed spec fn bytes(&self) -> Seq<u8> {
        self.data@
    }

    /// The current read position.
    pub closed spec fn pos(&self) -> int {
        self.pos as int
    }

    /// The position never lies past the end of the buffer.
    pub closed spec fn wf(&self) -> bool {
        self.pos <= self.data@.len()
    }

    /// A cursor at the start of `data`.
    pub fn new(data: &'a [u8]) -> (c: Self)
        ensures
            c.wf(),
            c.bytes() == data@,
            c.pos() == 0,
    {
        BinaryCursor { data, pos: 0 }
    }

    /// How many bytes are left to read.
    pub fn remaining(&self) -> (n: usize)
        requires
            self.wf(),
        ensures
            n == self.bytes().len() - self.pos(),
    {
        self.data.len() - self.pos
    }

    /// Whether the buffer is fully consumed.
    pub fn is_empty(&self) -> (b: bool)
        requires
            self.wf(),
        ensures
            b == (self.pos() == self.bytes().len()),
    {
        self.pos == self.data.len()
    }

    /// Reads one byte.
    pub fn read_u8(&mut self) -> (r: Result<u8, BridgeError>)
        requires
            old(self).wf(),
        ensures
            final(self).wf(),
            final(self).bytes() == old(self).bytes(),
            match r {
                Ok(b) => {
                    &&& old(self).pos() + 1 <= final(self).bytes().len()
                    &&& b == final(self).bytes()[old(self).pos()]
                    &&& final(self).pos() == old(self).pos() + 1
                },
                Err(e) => {
                    &&& e == BridgeError::TruncatedInput
                    &&& old(self).pos() + 1 > final(self).bytes().len()
                    &&& final(self).pos() == old(self).pos()
                },
            },
    {
        if self.pos < self.data.len() {
            let b = *slice_index_get(self.data, self.pos);
            self.pos = self.pos + 1;
            Ok(b)
        } else {
            Err(BridgeError::TruncatedInput)
        }
    }

    /// Reads a big-endian `u16`.
    pub fn read_u16(&mut self) -> (r: Result<u16, BridgeError>)
        requires
            old(self).wf(),
        ensures
            final(self).wf(),
            final(self).bytes() == old(self).bytes(),
            match r {
                Ok(x) => {
                    &&& old(self).pos() + 2 <= final(self).bytes().len()
                    &&& x == be_u16(final(self).bytes().subrange(old(self).pos(), old(self).pos() + 2))
                    &&& final(self).pos() == old(self).pos() + 2
                },
                Err(e) => {
                    &&& e == BridgeError::TruncatedInput
                    &&& old(self).pos() + 2 > final(self).bytes().len()
                    &&& final(self).pos() == old(self).pos()
                },
            },
    {
        if self.data.len() - self.pos >= 2 {
            let b0 = *slice_index_get(self.data, self.pos);
            let b1 = *slice_index_get(self.data, self.pos + 1);
            let x = ((b0 as u16) << 8u16) | (b1 as u16);
            proof {
                let s = self.bytes().subrange(self.pos(), self.pos() + 2);
                assert(s[0] == b0 && s[1] == b1);
            }
            self.pos = self.pos + 2;
            Ok(x)
        } else {
            Err(BridgeError::TruncatedInput)
        }
    }

    /// Reads a big-endian `u32`.
    pub fn read_u32(&mut self) -> (r: Result<u32, BridgeError>)
        requires
            old(self).wf(),
        ensures
            final(self).wf(),
            final(self).bytes() == old(self).bytes(),
            match r {
                Ok(x) => {
                    &&& old(self).pos() + 4 <= final(self).bytes().len()
                    &&& x == be_u32(final(self).bytes().subrange(old(self).pos(), old(self).pos() + 4))
                    &&& final(self).pos() == old(self).pos() + 4
                },
                Err(e) => {
                    &&& e == BridgeError::TruncatedInput
                    &&& old(self).pos() + 4 > final(self).bytes().len()
                    &&& final(self).pos() == old(self).pos()
                },
            },
    {
        if self.data.len() - self.pos >= 4 {
            let b0 = *slice_index_get(self.data, self.pos);
            let b1 = *slice_index_get(self.data, self.pos + 1);
            let b2 = *slice_index_get(self.data, self.pos + 2);
            let b3 = *slice_index_get(self.data, self.pos + 3);
            let x = ((b0 as u32) << 24u32) | ((b1 as u32) << 16u32) | ((b2 as u32) << 8u32) | (
            b3 as u32);
            proof {
                let s = self.bytes().subrange(self.pos(), self.pos() + 4);
                assert(s[0] == b0 && s[1] == b1 && s[2] == b2 && s[3] == b3);
            }
            self.pos = self.pos + 4;
            Ok(x)
        } else {
            Err(BridgeError::TruncatedInput)
        }
    }

    /// Reads a big-endian `u64`.
    pub fn read_u64(&mut self) -> (r: Result<u64, BridgeError>)
        requires
            old(self).wf(),
        ensures
            final(self).wf(),
            final(self).bytes() == old(self).bytes(),
            match r {
                Ok(x) => {
                    &&& old(self).pos() + 8 <= final(self).bytes().len()
                    &&& x == be_u64(final(self).bytes().subrange(old(self).pos(), old(self).pos() + 8))
                    &&& final(self).pos() == old(self).pos() + 8
                },
                Err(e) => {
                    &&& e == BridgeError::TruncatedInput
                    &&& old(self).pos() + 8 > final(self).bytes().len()
                    &&& final(self).pos() == old(self).pos()
                },
            },
    {
        if self.data.len() - self.pos >= 8 {
            let b0 = *slice_index_get(self.data, self.pos);
            let b1 = *slice_index_get(self.data, self.pos + 1);
            let b2 = *slice_index_get(self.data, self.pos + 2);
            let b3 = *slice_index_get(self.data, self.pos + 3);
            let b4 = *slice_index_get(self.data, self.pos + 4);
            let b5 = *slice_index_get(self.data, self.pos + 5);
            let b6 = *slice_index_get(self.data, self.pos + 6);
            let b7 = *slice_index_get(self.data, self.pos + 7);
            let x = ((b0 as u64) << 56u64) | ((b1 as u64) << 48u64) | ((b2 as u64) << 40u64) | ((
            b3 as u64) << 32u64) | ((b4 as u64) << 24u64) | ((b5 as u64) << 16u64) | ((b6 as u64)
                << 8u64) | (b7 as u64);
            proof {
                let s = self.bytes().subrange(self.pos(), self.pos() + 8);
                assert(s[0] == b0 && s[1] == b1 && s[2] == b2 && s[3] == b3 && s[4] == b4 && s[5]
                    == b5 && s[6] == b6 && s[7] == b7);
            }
            self.pos = self.pos + 8;
            Ok(x)
        } else {
            Err(BridgeError::TruncatedInput)
        }
    }

    /// Reads exactly `n` bytes.
    pub fn read_bytes(&mut self, n: usize) -> (r: Result<Vec<u8>, BridgeError>)
        requires
            old(self).wf(),
        ensures
            final(self).wf(),
            final(self).bytes() == old(self).bytes(),
            match r {
                Ok(v) => {
                    &&& old(self).pos() + n <= final(self).bytes().len()
                    &&& v@ == final(self).bytes().subrange(old(self).pos(), old(self).pos() + n)
                    &&& final(self).pos() == old(self).pos() + n
                },
                Err(e) => {
                    &&& e == BridgeError::TruncatedInput
                    &&& old(self).pos() + n > final(self).bytes().len()
                    &&& final(self).pos() == old(self).pos()
                },
            },
    {
        if self.data.len() - self.pos >= n {
            let s = slice_subrange(self.data, self.pos, self.pos + n);
            let v = slice_to_vec(s);
            self.pos = self.pos + n;
            Ok(v)
        } else {
            Err(BridgeError::TruncatedInput)
        }
    }

    /// Reads every byte that is left, leaving the cursor at the end.
    pub fn read_rest(&mut self) -> (v: Vec<u8>)
        requires
            old(self).wf(),
        ensures
            final(self).wf(),
            final(self).bytes() == old(self).bytes(),
            v@ == final(self).bytes().subrange(old(self).pos(), final(self).bytes().len() as int),
            final(self).pos() == final(self).bytes().len(),
    {
        let s = slice_subrange(self.data, self.pos, self.data.len());
        let v = slice_to_vec(s);
        self.pos = self.data.len();
        v
    }

    /// Reads a length prefix of 8, 16 or 32 bits, then that many bytes.
    /// Succeeds exactly when both the prefix and the announced count of
    /// bytes lie within the buffer.
    pub fn read_vec_u8(&mut self, len_prefix_bits: u32) -> (r: Result<Vec<u8>, BridgeError>)
        requires
            old(self).wf(),
            len_prefix_bits == 8 || len_prefix_bits == 16 || len_prefix_bits == 32,
        ensures
            final(self).wf(),
            final(self).bytes() == old(self).bytes(),
            ({
                let w = len_prefix_bits as int / 8;
                let have_prefix = old(self).pos() + w <= old(self).bytes().len();
                let announced = length_prefix_value(
                    old(self).bytes(),
                    old(self).pos(),
                    len_prefix_bits,
                );
                match r {
                    Ok(v) => {
                        &&& have_prefix
                        &&& old(self).pos() + w + announced <= old(self).bytes().len()
                        &&& v@.len() == announced
                        &&& v@ == old(self).bytes().subrange(
                            old(self).pos() + w,
                            old(self).pos() + w + announced,
                        )
                        &&& final(self).pos() == old(self).pos() + w + announced
                    },
                    Err(e) => {
                        &&& e == BridgeError::TruncatedInput
                        &&& (!have_prefix || old(self).pos() + w + announced > old(
                            self,
                        ).bytes().len())
                        &&& final(self).pos() == old(self).pos()
                    },
                }
            }),
    {
        let ghost start = self.pos();
        let len: usize = if len_prefix_bits == 8 {
            match self.read_u8() {
                Ok(x) => x as usize,
                Err(e) => {
                    return Err(e);
                },
            }
        } else if len_prefix_bits == 16 {
            match self.read_u16() {
                Ok(x) => x as usize,
                Err(e) => {
                    return Err(e);
                },
            }
        } else {
            match self.read_u32() {
                Ok(x) => x as usize,
                Err(e) => {
                    return Err(e);
                },
            }
        };
        match self.read_bytes(len) {
            Ok(v) => Ok(v),
            Err(e) => {
                self.pos = self.pos - (len_prefix_bits as usize / 8);
                Err(e)
            },
        }
    }
}

} // verus!
