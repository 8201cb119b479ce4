use vstd::prelude::*;

use crate::error::JvmError;

verus! {

/// Big-endian value of two bytes.
pub open spec fn be16(b0: u8, b1: u8) -> int {
    b0 * 0x100 + b1
}

/// Big-endian value of four bytes.
pub open spec fn be32(b0: u8, b1: u8, b2: u8, b3: u8) -> int {
    b0 * 0x1000000 + b1 * 0x10000 + b2 * 0x100 + b3
}

/// Big-endian value of eight bytes.
pub open spec fn be64(b0: u8, b1: u8, b2: u8, b3: u8, b4: u8, b5: u8, b6: u8, b7: u8) -> int {
    b0 * 0x100000000000000 + b1 * 0x1000000000000 + b2 * 0x10000000000 + b3 * 0x100000000
        + b4 * 0x1000000 + b5 * 0x10000 + b6 * 0x100 + b7
}

/// The two's-complement reading of a 32-bit pattern.
pub open spec fn signed32(v: u32) -> int {
    if v < 0x80000000 {
        v as int
    } else {
        v - 0x100000000
    }
}

/// The two's-complement reading of a 64-bit pattern.
pub open spec fn signed64(v: u64) -> int {
    if v < 0x8000000000000000 {
        v as int
    } else {
        v - 0x10000000000000000
    }
}

/// A forward-only cursor over an in-memory byte source. Every multi-byte read
/// is atomic: either all requested bytes are consumed, or the reader reports
/// `IoError` and stays where it was.
pub struct ByteReader {
    pub data: Vec<u8>,
    pub pos: usize,
}

impl ByteReader {
    /// The cursor never passes the end of the source.
    pub open spec fn wf(&self) -> bool {
        self.pos <= self.data@.len()
    }

    /// How many bytes are left to read.
    pub open spec fn remaining(&self) -> int {
        self.data@.len() - self.pos
    }

    pub fn new(data: Vec<u8>) -> (r: ByteReader)
        ensures
            r.data == data,
            r.pos == 0,
            r.wf(),
    {
        ByteReader { data, pos: 0 }
    }

    /// Read one byte.
    pub fn parse_u1(&mut self) -> (r: Result<u8, JvmError>)
        requires
            old(self).wf(),
        ensures
            final(self).wf(),
            final(self).data == old(self).data,
            r is Ok <==> old(self).remaining() >= 1,
            r is Ok ==> final(self).pos == old(self).pos + 1 && r->Ok_0
                == old(self).data@[old(self).pos as int],
            r is Err ==> *final(self) == *old(self) && r->Err_0 == JvmError::IoError,
    {
        if self.pos < self.data.len() {
            let b = self.data[self.pos];
            self.pos = self.pos + 1;
            Ok(b)
        } else {
            Err(JvmError::IoError)
        }
    }

    /// Read two bytes as a big-endian unsigned integer.
    pub fn parse_u2(&mut self) -> (r: Result<u16, JvmError>)
        requires
            old(self).wf(),
        ensures
            final(self).wf(),
            final(self).data == old(self).data,
            r is Ok <==> old(self).remaining() >= 2,
            r is Ok ==> final(self).pos == old(self).pos + 2 && r->Ok_0 == be16(
                old(self).data@[old(self).pos as int],
                old(self).data@[old(self).pos + 1],
            ),
            r is Err ==> *final(self) == *old(self) && r->Err_0 == JvmError::IoError,
    {
        if self.data.len() - self.pos >= 2 {
            let b0 = self.data[self.pos];
            let b1 = self.data[self.pos + 1];
            self.pos = self.pos + 2;
            Ok((b0 as u16) * 0x100 + (b1 as u16))
        } else {
            Err(JvmError::IoError)
        }
    }

    /// Read four bytes as a big-endian unsigned integer.
    pub fn parse_u4(&mut self) -> (r: Result<u32, JvmError>)
        requires
            old(self).wf(),
        ensures
            final(self).wf(),
            final(self).data == old(self).data,
            r is Ok <==> old(self).remaining() >= 4,
            r is Ok ==> final(self).pos == old(self).pos + 4 && r->Ok_0 == be32(
                old(self).data@[old(self).pos as int],
                old(self).data@[old(self).pos + 1],
                old(self).data@[old(self).pos + 2],
                old(self).data@[old(self).pos + 3],
            ),
            r is Err ==> *final(self) == *old(self) && r->Err_0 == JvmError::IoError,
    {
        if self.data.len() - self.pos >= 4 {
            let b0 = self.data[self.pos];
            let b1 = self.data[self.pos + 1];
            let b2 = self.data[self.pos + 2];
            let b3 = self.data[self.pos + 3];
            self.pos = self.pos + 4;
            Ok((b0 as u32) * 0x1000000 + (b1 as u32) * 0x10000 + (b2 as u32) * 0x100 + (b3 as u32))
        } else {
            Err(JvmError::IoError)
        }
    }

    /// Read eight bytes as a big-endian unsigned integer.
    pub fn parse_u8(&mut self) -> (r: Result<u64, JvmError>)
        requires
            old(self).wf(),
        ensures
            final(self).wf(),
            final(self).data == old(self).data,
            r is Ok <==> old(self).remaining() >= 8,
            r is Ok ==> final(self).pos == old(self).pos + 8 && r->Ok_0 == be64(
                old(self).data@[old(self).pos as int],
                old(self).data@[old(self).pos + 1],
                old(self).data@[old(self).pos + 2],
                old(self).data@[old(self).pos + 3],
                old(self).data@[old(self).pos + 4],
                old(self).data@[old(self).pos + 5],
                old(self).data@[old(self).pos + 6],
                old(self).data@[old(self).pos + 7],
            ),
            r is Err ==> *final(self) == *old(self) && r->Err_0 == JvmError::IoError,
    {
        if self.data.len() - self.pos >= 8 {
            let b0 = self.data[self.pos];
            let b1 = self.data[self.pos + 1];
            let b2 = self.data[self.pos + 2];
            let b3 = self.data[self.pos + 3];
            let b4 = self.data[self.pos + 4];
            let b5 = self.data[self.pos + 5];
            let b6 = self.data[self.pos + 6];
            let b7 = self.data[self.pos + 7];
            self.pos = self.pos + 8;
            Ok(
                (b0 as u64) * 0x100000000000000 + (b1 as u64) * 0x1000000000000 + (b2 as u64)
                    * 0x10000000000 + (b3 as u64) * 0x100000000 + (b4 as u64) * 0x1000000 + (
                b5 as u64) * 0x10000 + (b6 as u64) * 0x100 + (b7 as u64),
            )
        } else {
            Err(JvmError::IoError)
        }
    }

    /// Read four bytes as a big-endian two's-complement signed integer.
    pub fn parse_u4_as_i32(&mut self) -> (r: Result<i32, JvmError>)
        requires
            old(self).wf(),
        ensures
            final(self).wf(),
            final(self).data == old(self).data,
            r is Ok <==> old(self).remaining() >= 4,
            r is Ok ==> final(self).pos == old(self).pos + 4 && r->Ok_0 as int == signed32(
                be32(
                    old(self).data@[old(self).pos as int],
                    old(self).data@[old(self).pos + 1],
                    old(self).data@[old(self).pos + 2],
                    old(self).data@[old(self).pos + 3],
                ) as u32,
            ),
            r is Err ==> *final(self) == *old(self) && r->Err_0 == JvmError::IoError,
    {
        let v = match self.parse_u4() {
            Ok(v) => v,
            Err(e) => {
                return Err(e);
            },
        };
        if v < 0x80000000 {
            Ok(v as i32)
        } else {
            Ok(((v as i64) - 0x100000000i64) as i32)
        }
    }

    /// Read eight bytes as a big-endian two's-complement signed integer.
    pub fn parse_u8_as_i64(&mut self) -> (r: Result<i64, JvmError>)
        requires
            old(self).wf(),
        ensures
            final(self).wf(),
            final(self).data == old(self).data,
            r is Ok <==> old(self).remaining() >= 8,
            r is Ok ==> final(self).pos == old(self).pos + 8 && r->Ok_0 as int == signed64(
                be64(
                    old(self).data@[old(self).pos as int],
                    old(self).data@[old(self).pos + 1],
                    old(self).data@[old(self).pos + 2],
                    old(self).data@[old(self).pos + 3],
                    old(self).data@[old(self).pos + 4],
                    old(self).data@[old(self).pos + 5],
                    old(self).data@[old(self).pos + 6],
                    old(self).data@[old(self).pos + 7],
                ) as u64,
            ),
            r is Err ==> *final(self) == *old(self) && r->Err_0 == JvmError::IoError,
    {
        let v = match self.parse_u8() {
            Ok(v) => v,
            Err(e) => {
                return Err(e);
            },
        };
        if v < 0x8000000000000000 {
            Ok(v as i64)
        } else {
            Ok(((v as i128) - 0x10000000000000000i128) as i64)
        }
    }

    /// Read one byte as it stands.
    pub fn parse_u1_as_bytes(&mut self) -> (r: Result<[u8; 1], JvmError>)
        requires
            old(self).wf(),
        ensures
            final(self).wf(),
            final(self).data == old(self).data,
            r is Ok <==> old(self).remaining() >= 1,
            r is Ok ==> final(self).pos == old(self).pos + 1 && r->Ok_0@ == old(
                self,
            ).data@.subrange(old(self).pos as int, old(self).pos + 1),
            r is Err ==> *final(self) == *old(self) && r->Err_0 == JvmError::IoError,
    {
        if self.data.len() - self.pos >= 1 {
            let b0 = self.data[self.pos];
            self.pos = self.pos + 1;
            let buf = [b0];
            proof {
                assert(buf@ =~= old(self).data@.subrange(
                    old(self).pos as int,
                    old(self).pos + 1,
                ));
            }
            Ok(buf)
        } else {
            Err(JvmError::IoError)
        }
    }

    /// Read two bytes as they stand, most significant first.
    pub fn parse_u2_as_bytes(&mut self) -> (r: Result<[u8; 2], JvmError>)
        requires
            old(self).wf(),
        ensures
            final(self).wf(),
            final(self).data == old(self).data,
            r is Ok <==> old(self).remaining() >= 2,
            r is Ok ==> final(self).pos == old(self).pos + 2 && r->Ok_0@ == old(
                self,
            ).data@.subrange(old(self).pos as int, old(self).pos + 2),
            r is Err ==> *final(self) == *old(self) && r->Err_0 == JvmError::IoError,
    {
        if self.data.len() - self.pos >= 2 {
            let b0 = self.data[self.pos];
            let b1 = self.data[self.pos + 1];
            self.pos = self.pos + 2;
            let buf = [b0, b1];
            proof {
                assert(buf@ =~= old(self).data@.subrange(
                    old(self).pos as int,
                    old(self).pos + 2,
                ));
            }
            Ok(buf)
        } else {
            Err(JvmError::IoError)
        }
    }

    /// Read four bytes as they stand, most significant first.
    pub fn parse_u4_as_bytes(&mut self) -> (r: Result<[u8; 4], JvmError>)
        requires
            old(self).wf(),
        ensures
            final(self).wf(),
            final(self).data == old(self).data,
            r is Ok <==> old(self).remaining() >= 4,
            r is Ok ==> final(self).pos == old(self).pos + 4 && r->Ok_0@ == old(
                self,
            ).data@.subrange(old(self).pos as int, old(self).pos + 4),
            r is Err ==> *final(self) == *old(self) && r->Err_0 == JvmError::IoError,
    {
        if self.data.len() - self.pos >= 4 {
            let b0 = self.data[self.pos];
            let b1 = self.data[self.pos + 1];
            let b2 = self.data[self.pos + 2];
            let b3 = self.data[self.pos + 3];
            self.pos = self.pos + 4;
            let buf = [b0, b1, b2, b3];
            proof {
                assert(buf@ =~= old(self).data@.subrange(
                    old(self).pos as int,
                    old(self).pos + 4,
                ));
            }
            Ok(buf)
        } else {
            Err(JvmError::IoError)
        }
    }

    /// Read exactly `n` bytes, or fail without moving.
    pub fn parse_n_bytes(&mut self, n: usize) -> (r: Result<Vec<u8>, JvmError>)
        requires
            old(self).wf(),
        ensures
            final(self).wf(),
            final(self).data == old(self).data,
            r is Ok <==> old(self).remaining() >= n,
            r is Ok ==> final(self).pos == old(self).pos + n && r->Ok_0@ == old(
                self,
            ).data@.subrange(old(self).pos as int, old(self).pos + n),
            r is Err ==> *final(self) == *old(self) && r->Err_0 == JvmError::IoError,
    {
        if n <= self.data.len() - self.pos {
            let mut out: Vec<u8> = Vec::new();
            let start = self.pos;
            let mut i: usize = 0;
            while i < n
                invariant
                    self.wf(),
                    i <= n,
                    start + n <= self.data@.len(),
                    self.data@.len() <= usize::MAX,
                    self.pos == start,
                    out@ == self.data@.subrange(start as int, start + i),
                decreases n - i,
            {
                out.push(self.data[start + i]);
                proof {
                    assert(out@ =~= self.data@.subrange(start as int, start + i + 1));
                }
                i = i + 1;
            }
            self.pos = start + n;
            Ok(out)
        } else {
            Err(JvmError::IoError)
        }
    }

    /// Read a length-prefixed text payload of `len` bytes and decode it.
    /// Bytes that are not well-formed UTF-8 fail the read.
    pub fn parse_utf8(&mut self, len: u16) -> (r: Result<String, JvmError>)
        requires
            old(self).wf(),
        ensures
            final(self).wf(),
            final(self).data == old(self).data,
            r is Ok <==> old(self).remaining() >= len && vstd::utf8::valid_utf8(
                old(self).data@.subrange(old(self).pos as int, old(self).pos + len),
            ),
            r is Ok ==> final(self).pos == old(self).pos + len && r->Ok_0@
                == vstd::utf8::decode_utf8(
                old(self).data@.subrange(old(self).pos as int, old(self).pos + len),
            ),
            r is Err ==> *final(self) == *old(self) && r->Err_0 == JvmError::IoError,
    {
        let snap = self.pos;
        let bytes = match self.parse_n_bytes(len as usize) {
            Ok(b) => b,
            Err(e) => {
                return Err(e);
            },
        };
        match string_from_utf8(bytes) {
            Some(s) => Ok(s),
            None => {
                self.pos = snap;
                Err(JvmError::IoError)
            },
        }
    }
}

/// Relies on `String::from_utf8`: it succeeds exactly on well-formed UTF-8
/// bytes and returns their decoding, as `vstd::utf8` states both.
#[verifier::external_body]
fn string_from_utf8(bytes: Vec<u8>) -> (r: Option<String>)
    ensures
        r is Some <==> vstd::utf8::valid_utf8(bytes@),
        r is Some ==> r->0@ == vstd::utf8::decode_utf8(bytes@),
{
    String::from_utf8(bytes).ok()
}

} // verus!
