//! The layered wire interface: a reset-capable driver, the bit layer a
//! platform supplies, and the byte layer derived from any bit layer.
pub mod embedded_opendrain;

use vstd::prelude::*;

use crate::Error;
use crate::search::byte_bit;

verus! {

/// Bottom capability of any back-end: issue a reset pulse and listen for a
/// presence pulse.
///
/// `Ok(true)` means at least one slave answered, `Ok(false)` means the wire
/// is healthy but silent; the only error a conforming driver may raise is
/// `WireNotHigh`, for a wire that never floats high.
pub trait Driver {
    fn reset(&mut self) -> (r: Result<bool, Error>)
        ensures
            r matches Err(e) ==> e == Error::WireNotHigh,
    ;
}

/// The timed single-bit slots of the protocol; implemented by platform
/// back-ends. The only error a conforming implementation may raise is
/// `WireNotHigh`.
pub trait BitDriver: Driver {
    fn read_bit(&mut self) -> (r: Result<bool, Error>)
        ensures
            r matches Err(e) ==> e == Error::WireNotHigh,
    ;

    fn write_bit(&mut self, data: bool) -> (r: Result<(), Error>)
        ensures
            r matches Err(e) ==> e == Error::WireNotHigh,
    ;
}

/// LSB-first byte transfers; derived automatically for every bit layer. The
/// bulk forms loop the single-byte form and fail fast on the first error.
pub trait ByteDriver: Driver {
    fn read_byte(&mut self) -> (r: Result<u8, Error>)
        ensures
            r matches Err(e) ==> e == Error::WireNotHigh,
    ;

    fn write_byte(&mut self, data: u8) -> (r: Result<(), Error>)
        ensures
            r matches Err(e) ==> e == Error::WireNotHigh,
    ;

    fn read_bytes(&mut self, data: &mut Vec<u8>) -> (r: Result<(), Error>)
        ensures
            final(data)@.len() == old(data)@.len(),
            r matches Err(e) ==> e == Error::WireNotHigh,
    {
        let mut i: usize = 0;
        while i < data.len()
            invariant
                data@.len() == old(data)@.len(),
                i <= data@.len(),
            decreases data@.len() - i,
        {
            let b = match self.read_byte() {
                Ok(b) => b,
                Err(e) => { return Err(e) },
            };
            data[i] = b;
            i = i + 1;
        }
        Ok(())
    }

    fn write_bytes(&mut self, data: &[u8]) -> (r: Result<(), Error>)
        ensures
            r matches Err(e) ==> e == Error::WireNotHigh,
    {
        let mut i: usize = 0;
        while i < data.len()
            invariant
                i <= data@.len(),
            decreases data@.len() - i,
        {
            let b = data[i];
            match self.write_byte(b) {
                Ok(()) => {},
                Err(e) => { return Err(e) },
            }
            i = i + 1;
        }
        Ok(())
    }
}

/// Every bit layer is a byte layer: eight bit slots per byte, bit 0 first.
impl<T: BitDriver> ByteDriver for T {
    /// Eight read-bit slots; the first bit received becomes bit 0 of the
    /// result.
    fn read_byte(&mut self) -> (r: Result<u8, Error>) {
        let mut byte: u8 = 0;
        let mut n: u8 = 0;
        while n < 8
            invariant
                n <= 8,
            decreases 8 - n,
        {
            let bit = match self.read_bit() {
                Ok(b) => b,
                Err(e) => { return Err(e) },
            };
            if bit {
                byte = byte | (1u8 << n);
            }
            n = n + 1;
        }
        Ok(byte)
    }

    /// Eight write-bit slots, bit 0 of `data` first.
    fn write_byte(&mut self, data: u8) -> (r: Result<(), Error>) {
        let mut n: u8 = 0;
        while n < 8
            invariant
                n <= 8,
            decreases 8 - n,
        {
            let bit = (data >> n) & 1 == 1;
            match self.write_bit(bit) {
                Ok(()) => {},
                Err(e) => { return Err(e) },
            }
            n = n + 1;
        }
        Ok(())
    }
}

/// A byte is determined by its eight bit slots: two bytes that agree on every
/// bit position are equal. Over a loopback bus, where each read-bit slot
/// returns what the preceding write-bit slot sent, reading a byte back after
/// writing it therefore yields the byte that was written.
pub proof fn lemma_byte_determined_by_bits(a: u8, b: u8)
    requires
        forall|n: u8| n < 8 ==> byte_bit(a, n) == byte_bit(b, n),
    ensures
        a == b,
{
    assert(byte_bit(a, 0) == byte_bit(b, 0));
    assert(byte_bit(a, 1) == byte_bit(b, 1));
    assert(byte_bit(a, 2) == byte_bit(b, 2));
    assert(byte_bit(a, 3) == byte_bit(b, 3));
    assert(byte_bit(a, 4) == byte_bit(b, 4));
    assert(byte_bit(a, 5) == byte_bit(b, 5));
    assert(byte_bit(a, 6) == byte_bit(b, 6));
    assert(byte_bit(a, 7) == byte_bit(b, 7));
    assert(a == b) by (bit_vector)
        requires
            byte_bit(a, 0) == byte_bit(b, 0),
            byte_bit(a, 1) == byte_bit(b, 1),
            byte_bit(a, 2) == byte_bit(b, 2),
            byte_bit(a, 3) == byte_bit(b, 3),
            byte_bit(a, 4) == byte_bit(b, 4),
            byte_bit(a, 5) == byte_bit(b, 5),
            byte_bit(a, 6) == byte_bit(b, 6),
            byte_bit(a, 7) == byte_bit(b, 7),
    ;
}

} // verus!
