use crate::error::Error;
use vstd::prelude::*;

verus! {

/// The bit at position `i` of `b`, counted from the least-significant end.
pub open spec fn bit_of(b: u8, i: u8) -> bool
    recommends
        i < 8,
{
    (b >> i) & 1 == 1
}

/// The `n` bits of `b` starting at bit position `pos`, right-aligned.
pub open spec fn take_bits(b: u8, pos: u8, n: u8) -> u8
    recommends
        pos < 8,
        pos + n <= 8,
{
    ((((b as u16) >> (pos as u16)) & (((1u16 << (n as u16)) - 1) as u16)) as u8)
}

/// The value of an `n`-bit pull starting at bit position `bp` of `b0`:
/// the remaining bits of `b0` form the most-significant part and, when
/// `n` crosses the byte boundary, the low bits of `b1` follow — the
/// composition of the two single-byte pulls, most-significant bits first.
pub open spec fn spec_bits16(b0: u8, b1: u8, bp: u8, n: u8) -> u16
    recommends
        bp < 8,
        n <= 16,
        n <= (8 - bp) + 8,
{
    if n <= 8 - bp {
        take_bits(b0, bp, n) as u16
    } else {
        ((take_bits(b0, bp, (8 - bp) as u8) as u16) << ((n - (8 - bp)) as u16)) | (take_bits(
            b1,
            0,
            (n - (8 - bp)) as u8,
        ) as u16)
    }
}

/// A byte assembled from eight bits, least-significant bit first.
pub open spec fn byte_from_bits(
    b0: bool,
    b1: bool,
    b2: bool,
    b3: bool,
    b4: bool,
    b5: bool,
    b6: bool,
    b7: bool,
) -> u8 {
    (if b0 {
        1u8
    } else {
        0u8
    }) | ((if b1 {
        1u8
    } else {
        0u8
    }) << 1u8) | ((if b2 {
        1u8
    } else {
        0u8
    }) << 2u8) | ((if b3 {
        1u8
    } else {
        0u8
    }) << 3u8) | ((if b4 {
        1u8
    } else {
        0u8
    }) << 4u8) | ((if b5 {
        1u8
    } else {
        0u8
    }) << 5u8) | ((if b6 {
        1u8
    } else {
        0u8
    }) << 6u8) | ((if b7 {
        1u8
    } else {
        0u8
    }) << 7u8)
}

/// Law: assembling the eight single-bit pulls of a byte, in the order
/// they are pulled (least-significant bit first), gives back the byte —
/// so eight `pull_bit` calls yield the same assembled byte as one
/// `pull_byte` call on the same position, for every byte value.
pub proof fn lemma_bit_pulls_assemble_byte(b: u8)
    by (bit_vector)
    ensures
        byte_from_bits(
            bit_of(b, 0),
            bit_of(b, 1),
            bit_of(b, 2),
            bit_of(b, 3),
            bit_of(b, 4),
            bit_of(b, 5),
            bit_of(b, 6),
            bit_of(b, 7),
        ) == b,
{
}

/// A bit-granular cursor over a borrowed byte sequence.
///
/// The cursor keeps a byte offset and a bit offset within the current
/// byte; bits are numbered from the least-significant end, so bit 0 of
/// a byte is pulled first and bit 7 last, after which the cursor rolls
/// over to the next byte.
pub struct Stream<'a> {
    pub data: &'a [u8],
    pub position: usize,
    pub bit_position: u8,
}

impl<'a> Stream<'a> {
    /// The cursor position stays inside the sequence and the bit offset
    /// inside the current byte.
    pub open spec fn wf(self) -> bool {
        self.bit_position < 8 && self.position <= self.data@.len()
    }

    /// Read a whole byte; only allowed at a byte boundary.
    pub fn pull_byte(&mut self) -> (r: Result<u8, Error>)
        requires
            old(self).wf(),
        ensures
            final(self).wf(),
            final(self).data == old(self).data,
            final(self).bit_position == old(self).bit_position,
            old(self).bit_position != 0 ==> r == Err::<u8, Error>(Error::MisalignedRead)
                && final(self).position == old(self).position,
            old(self).bit_position == 0 && old(self).position >= old(self).data@.len() ==> r
                == Err::<u8, Error>(Error::Exhausted) && final(self).position == old(self).position,
            old(self).bit_position == 0 && old(self).position < old(self).data@.len() ==> r
                == Ok::<u8, Error>(old(self).data@[old(self).position as int]) && final(self).position == old(self).position + 1,
    {
        if self.bit_position > 0 {
            Err(Error::MisalignedRead)
        } else if self.position >= self.data.len() {
            Err(Error::Exhausted)
        } else {
            let v = self.data[self.position];
            self.position = self.position + 1;
            Ok(v)
        }
    }

    /// Read the next single bit, rolling over to the next byte once the
    /// current byte's eight bits have all been pulled.
    pub fn pull_bit(&mut self) -> (r: Result<bool, Error>)
        requires
            old(self).wf(),
        ensures
            final(self).wf(),
            final(self).data == old(self).data,
            old(self).position >= old(self).data@.len() ==> r == Err::<bool, Error>(
                Error::Exhausted,
            ) && final(self).position == old(self).position && final(self).bit_position == old(self).bit_position,
            old(self).position < old(self).data@.len() ==> {
                &&& r == Ok::<bool, Error>(
                    bit_of(
                        old(self).data@[old(self).position as int],
                        old(self).bit_position,
                    ),
                )
                &&& old(self).bit_position == 7 ==> final(self).position == old(self).position + 1
                    && final(self).bit_position == 0
                &&& old(self).bit_position < 7 ==> final(self).position == old(self).position
                    && final(self).bit_position == old(self).bit_position + 1
            },
    {
        if self.position >= self.data.len() {
            Err(Error::Exhausted)
        } else {
            let b = self.data[self.position];
            let v = b & (1u8 << self.bit_position) > 0;
            proof {
                let i = self.bit_position;
                assert((b & (1u8 << i) > 0) == ((b >> i) & 1 == 1)) by (bit_vector)
                    requires
                        i < 8,
                ;
            }
            if self.bit_position == 7 {
                self.position = self.position + 1;
                self.bit_position = 0;
            } else {
                self.bit_position = self.bit_position + 1;
            }
            Ok(v)
        }
    }

    /// Read the next `n` bits out of the current byte only, right-aligned
    /// in the result. A width of 8 behaves exactly as a whole-byte pull;
    /// any other width that would cross the current byte's remaining bits
    /// is refused.
    pub fn pull_bits(&mut self, n: u8) -> (r: Result<u8, Error>)
        requires
            old(self).wf(),
        ensures
            final(self).wf(),
            final(self).data == old(self).data,
            n == 8 && old(self).bit_position != 0 ==> r == Err::<u8, Error>(Error::MisalignedRead)
                && *final(self) == *old(self),
            n != 8 && old(self).bit_position + n > 8 ==> r == Err::<u8, Error>(
                Error::InsufficientBits,
            ) && *final(self) == *old(self),
            old(self).bit_position + n <= 8 && old(self).position >= old(self).data@.len() ==> r
                == Err::<u8, Error>(Error::Exhausted) && *final(self) == *old(self),
            old(self).bit_position + n <= 8 && old(self).position < old(self).data@.len() ==> {
                &&& r == Ok::<u8, Error>(
                    take_bits(
                        old(self).data@[old(self).position as int],
                        old(self).bit_position,
                        n,
                    ),
                )
                &&& old(self).bit_position + n == 8 ==> final(self).position == old(self).position
                    + 1 && final(self).bit_position == 0
                &&& old(self).bit_position + n < 8 ==> final(self).position == old(self).position
                    && final(self).bit_position == old(self).bit_position + n
            },
    {
        if n == 8 {
            let r = self.pull_byte();
            proof {
                if old(self).bit_position == 0 && old(self).position < old(self).data@.len() {
                    let b = old(self).data@[old(self).position as int];
                    assert(take_bits(b, 0, 8) == b) by (bit_vector);
                }
            }
            r
        } else if n > 8 - self.bit_position {
            Err(Error::InsufficientBits)
        } else if self.position >= self.data.len() {
            Err(Error::Exhausted)
        } else {
            let b = self.data[self.position];
            proof {
                let bp = self.bit_position;
                assert(1u16 << (n as u16) >= 1 && (((b as u16) >> (bp as u16)) & ((1u16 << (
                n as u16)) - 1) as u16) < 256) by (bit_vector)
                    requires
                        n <= 7,
                        bp < 8,
                ;
            }
            let mask: u16 = (1u16 << (n as u16)) - 1;
            let v = (((b as u16) >> (self.bit_position as u16)) & mask) as u8;
            if self.bit_position + n == 8 {
                self.position = self.position + 1;
                self.bit_position = 0;
            } else {
                self.bit_position = self.bit_position + n;
            }
            Ok(v)
        }
    }

    /// Read the next `n` bits, at most 16, spanning at most two bytes,
    /// most-significant bits first, as the protocol packs its fields.
    /// The pull composes up to two single-byte pulls: the bits remaining
    /// in the current byte, then the rest from the following byte. When
    /// the second pull fails, the first byte stays consumed.
    pub fn pull_bits_u16(&mut self, n: u8) -> (r: Result<u16, Error>)
        requires
            old(self).wf(),
        ensures
            final(self).wf(),
            final(self).data == old(self).data,
            n > 16 ==> r == Err::<u16, Error>(Error::InvalidWidth) && *final(self) == *old(self),
            n <= 16 && old(self).position >= old(self).data@.len() ==> r == Err::<u16, Error>(
                Error::Exhausted,
            ) && *final(self) == *old(self),
            n <= 16 && n <= 8 - old(self).bit_position && old(self).position < old(self).data@.len() ==> {
                &&& r == Ok::<u16, Error>(
                    spec_bits16(
                        old(self).data@[old(self).position as int],
                        0,
                        old(self).bit_position,
                        n,
                    ),
                )
                &&& old(self).bit_position + n == 8 ==> final(self).position == old(self).position
                    + 1 && final(self).bit_position == 0
                &&& old(self).bit_position + n < 8 ==> final(self).position == old(self).position
                    && final(self).bit_position == old(self).bit_position + n
            },
            n <= 16 && n > 8 - old(self).bit_position && old(self).position < old(self).data@.len() ==> {
                let n2 = n - (8 - old(self).bit_position);
                &&& n2 > 8 ==> r == Err::<u16, Error>(Error::InsufficientBits) && final(self).position == old(self).position + 1 && final(self).bit_position == 0
                &&& n2 <= 8 && old(self).position + 1 >= old(self).data@.len() ==> r == Err::<
                    u16,
                    Error,
                >(Error::Exhausted) && final(self).position == old(self).position + 1 && final(self).bit_position == 0
                &&& n2 <= 8 && old(self).position + 1 < old(self).data@.len() ==> {
                    &&& r == Ok::<u16, Error>(
                        spec_bits16(
                            old(self).data@[old(self).position as int],
                            old(self).data@[old(self).position + 1],
                            old(self).bit_position,
                            n,
                        ),
                    )
                    &&& n2 == 8 ==> final(self).position == old(self).position + 2 && final(self).bit_position == 0
                    &&& n2 < 8 ==> final(self).position == old(self).position + 1 && final(self).bit_position == n2
                }
            },
    {
        if n > 16 {
            Err(Error::InvalidWidth)
        } else {
            let rem = 8 - self.bit_position;
            if n <= rem {
                match self.pull_bits(n) {
                    Ok(v) => Ok(v as u16),
                    Err(e) => Err(e),
                }
            } else {
                let n2 = n - rem;
                let hi = match self.pull_bits(rem) {
                    Ok(v) => v,
                    Err(e) => {
                        return Err(e);
                    },
                };
                let lo = match self.pull_bits(n2) {
                    Ok(v) => v,
                    Err(e) => {
                        return Err(e);
                    },
                };
                Ok(((hi as u16) << (n2 as u16)) | (lo as u16))
            }
        }
    }
}

impl<'a> From<&'a [u8]> for Stream<'a> {
    /// A fresh cursor starts with both offsets at zero.
    fn from(data: &'a [u8]) -> (r: Stream<'a>) {
        Stream { data, position: 0, bit_position: 0 }
    }
}

impl<'a> vstd::std_specs::convert::FromSpecImpl<&'a [u8]> for Stream<'a> {
    open spec fn obeys_from_spec() -> bool {
        true
    }

    open spec fn from_spec(v: &'a [u8]) -> Stream<'a> {
        Stream { data: v, position: 0, bit_position: 0 }
    }
}

} // verus!
