use vstd::prelude::*;

use crate::Error;

verus! {

/// Little-endian value of the two bytes of `d` at `off`.
pub open spec fn le16_at(d: Seq<u8>, off: int) -> u16 {
    (d[off] + d[off + 1] * 0x100) as u16
}

/// Little-endian value of the four bytes of `d` at `off`.
pub open spec fn le32_at(d: Seq<u8>, off: int) -> u32 {
    (d[off] + d[off + 1] * 0x100 + d[off + 2] * 0x1_0000 + d[off + 3] * 0x100_0000) as u32
}

/// A 64-bit value stored as two 32-bit halves at separate offsets (the
/// lo/hi split-field pattern of 32-bit-era fields later widened to 64).
pub open spec fn combine64(lo: u32, hi: u32) -> u64 {
    (lo + hi * 0x1_0000_0000) as u64
}

/// A 48-bit block number stored as a high 16-bit half and a low 32-bit
/// half.
pub open spec fn combine48(hi: u16, lo: u32) -> u64 {
    (lo + hi * 0x1_0000_0000) as u64
}

/// The `n` bytes of `d` at `off` are within bounds.
pub open spec fn fits(d: Seq<u8>, off: int, n: int) -> bool {
    off + n <= d.len()
}

/// Positioned, bounds-checked little-endian decoding over an in-memory
/// byte image of a random-access source. Every read is a fresh positioned
/// access; there is no cursor and no buffering.
pub struct Reader {
    inner: Vec<u8>,
}

impl View for Reader {
    type V = Seq<u8>;

    closed spec fn view(&self) -> Seq<u8> {
        self.inner@
    }
}

impl Reader {
    /// Wrap a byte image.
    pub fn new(inner: Vec<u8>) -> (r: Reader)
        ensures
            r@ == inner@,
    {
        Reader { inner }
    }

    /// Length of the addressable window.
    pub fn len(&self) -> (n: usize)
        ensures
            n == self@.len(),
    {
        self.inner.len()
    }

    /// Little-endian u16 at absolute `offset`; a short window is an I/O
    /// error.
    pub fn u16(&self, offset: u64) -> (r: Result<u16, Error>)
        ensures
            fits(self@, offset as int, 2) ==> r == Ok::<u16, Error>(
                le16_at(self@, offset as int),
            ),
            !fits(self@, offset as int, 2) ==> r == Err::<u16, Error>(Error::Io),
    {
        let n = self.inner.len();
        if n < 2 || offset > (n - 2) as u64 {
            return Err(Error::Io);
        }
        let off = offset as usize;
        let b0 = self.inner[off];
        let b1 = self.inner[off + 1];
        Ok(b0 as u16 + (b1 as u16) * 0x100)
    }

    /// Little-endian u32 at absolute `offset`; a short window is an I/O
    /// error.
    pub fn u32(&self, offset: u64) -> (r: Result<u32, Error>)
        ensures
            fits(self@, offset as int, 4) ==> r == Ok::<u32, Error>(
                le32_at(self@, offset as int),
            ),
            !fits(self@, offset as int, 4) ==> r == Err::<u32, Error>(Error::Io),
    {
        let n = self.inner.len();
        if n < 4 || offset > (n - 4) as u64 {
            return Err(Error::Io);
        }
        let off = offset as usize;
        let b0 = self.inner[off];
        let b1 = self.inner[off + 1];
        let b2 = self.inner[off + 2];
        let b3 = self.inner[off + 3];
        Ok(b0 as u32 + (b1 as u32) * 0x100 + (b2 as u32) * 0x1_0000 + (b3 as u32) * 0x100_0000)
    }

    /// The lo/hi split-field read: a u32 at `lo` and a u32 at `hi`,
    /// combined into one 64-bit value.
    pub fn u64_lohi(&self, lo: u64, hi: u64) -> (r: Result<u64, Error>)
        ensures
            fits(self@, lo as int, 4) && fits(self@, hi as int, 4) ==> r == Ok::<u64, Error>(
                combine64(le32_at(self@, lo as int), le32_at(self@, hi as int)),
            ),
            !(fits(self@, lo as int, 4) && fits(self@, hi as int, 4)) ==> r == Err::<u64, Error>(
                Error::Io,
            ),
    {
        let l = self.u32(lo)?;
        let h = self.u32(hi)?;
        Ok(l as u64 + (h as u64) * 0x1_0000_0000)
    }

    /// Copy of the `len` bytes at absolute `offset`; a short window is an
    /// I/O error.
    pub fn read_bytes(&self, offset: u64, len: usize) -> (r: Result<Vec<u8>, Error>)
        ensures
            fits(self@, offset as int, len as int) ==> (r matches Ok(v) && v@ == self@.subrange(
                offset as int,
                offset as int + len,
            )),
            !fits(self@, offset as int, len as int) ==> r == Err::<Vec<u8>, Error>(Error::Io),
    {
        let n = self.inner.len();
        if offset > n as u64 || (len as u64) > n as u64 - offset {
            return Err(Error::Io);
        }
        let off = offset as usize;
        let mut out: Vec<u8> = Vec::new();
        let mut i: usize = 0;
        proof {
            assert(out@ =~= self@.subrange(off as int, off as int));
        }
        while i < len
            invariant
                i <= len,
                off as int == offset as int,
                off + len <= self@.len(),
                self@.len() <= usize::MAX,
                out@ == self@.subrange(off as int, off as int + i as int),
            decreases len - i,
        {
            out.push(self.inner[off + i]);
            i = i + 1;
            proof {
                assert(out@ =~= self@.subrange(off as int, off as int + i as int));
            }
        }
        Ok(out)
    }
}

/// Little-endian u16 out of an in-memory block at a checked offset.
pub fn get_u16(b: &Vec<u8>, off: usize) -> (r: u16)
    requires
        off + 2 <= b@.len(),
    ensures
        r == le16_at(b@, off as int),
{
    let n = b.len();
    assert(off + 2 <= n);
    let b0 = b[off];
    let b1 = b[off + 1];
    b0 as u16 + (b1 as u16) * 0x100
}

/// Little-endian u32 out of an in-memory block at a checked offset.
pub fn get_u32(b: &Vec<u8>, off: usize) -> (r: u32)
    requires
        off + 4 <= b@.len(),
    ensures
        r == le32_at(b@, off as int),
{
    let n = b.len();
    assert(off + 4 <= n);
    let b0 = b[off];
    let b1 = b[off + 1];
    let b2 = b[off + 2];
    let b3 = b[off + 3];
    b0 as u32 + (b1 as u32) * 0x100 + (b2 as u32) * 0x1_0000 + (b3 as u32) * 0x100_0000
}

} // verus!
