//! The resumable search cursor that the enumerator threads across calls,
//! together with the bit-level view of its two 8-byte buffers.
use vstd::prelude::*;

verus! {

/// True iff bit `off` (counted from the least significant end) of `b` is set.
pub open spec fn byte_bit(b: u8, off: u8) -> bool {
    (b >> off) & 1 == 1
}

/// True iff bit `i` of the 64-bit value laid out LSB-first in `bytes` is set:
/// bit `i` lives in byte `i / 8` at offset `i % 8`.
pub open spec fn bit_at(bytes: Seq<u8>, i: int) -> bool
    recommends
        0 <= i < 8 * bytes.len(),
{
    byte_bit(bytes[i / 8], (i % 8) as u8)
}

/// Index of the highest bit set among bits `0 .. n` of `bytes`, or `-1` if
/// none is set.
pub open spec fn last_set_below(bytes: Seq<u8>, n: int) -> int
    decreases n,
{
    if n <= 0 {
        -1
    } else if bit_at(bytes, n - 1) {
        n - 1
    } else {
        last_set_below(bytes, n - 1)
    }
}

/// Everything `last_set_below` promises: the result is a set bit below `n`
/// and nothing above it (and below `n`) is set; `-1` means no bit is set.
pub proof fn lemma_last_set_below(bytes: Seq<u8>, n: int)
    requires
        0 <= n,
    ensures
        -1 <= last_set_below(bytes, n) < n,
        last_set_below(bytes, n) >= 0 ==> bit_at(bytes, last_set_below(bytes, n)),
        forall|j: int| last_set_below(bytes, n) < j < n ==> !bit_at(bytes, j),
    decreases n,
{
    if n > 0 {
        lemma_last_set_below(bytes, n - 1);
    }
}

/// Phase of an enumeration: fresh, paused after a discovery, or exhausted.
#[derive(Clone, Copy, Debug, PartialEq, Eq, Structural)]
pub enum SearchState {
    Initialized,
    DeviceFound,
    End,
}

/// Resumable state of one enumeration: the ROM code being walked, a bitmap
/// of branch points still pending a second visit, and the phase.
///
/// Bit `i` of either buffer is bit `i % 8` of byte `i / 8`.
#[derive(Clone, Copy, Debug)]
pub struct DeviceSearch {
    pub address: [u8; 8],
    pub discrepancies: [u8; 8],
    pub state: SearchState,
}

impl DeviceSearch {
    /// Bit `i` of the accumulated ROM code.
    pub open spec fn addr_bit(self, i: int) -> bool {
        bit_at(self.address@, i)
    }

    /// Bit `i` of the pending-branch bitmap.
    pub open spec fn disc_bit(self, i: int) -> bool {
        bit_at(self.discrepancies@, i)
    }

    /// No branch anywhere is still pending a second visit.
    pub open spec fn no_discrepancies(self) -> bool {
        forall|i: int| 0 <= i < 64 ==> !self.disc_bit(i)
    }

    /// The highest pending branch, or `-1` if none remains.
    pub open spec fn spec_last_discrepancy(self) -> int {
        last_set_below(self.discrepancies@, 64)
    }

    /// A fresh cursor: empty address, no pending branches.
    pub fn new() -> (r: DeviceSearch)
        ensures
            r.state == SearchState::Initialized,
            r.address@ == seq![0u8, 0u8, 0u8, 0u8, 0u8, 0u8, 0u8, 0u8],
            r.discrepancies@ == seq![0u8, 0u8, 0u8, 0u8, 0u8, 0u8, 0u8, 0u8],
            forall|i: int| 0 <= i < 64 ==> !r.addr_bit(i) && !r.disc_bit(i),
            r.no_discrepancies(),
    {
        let r = DeviceSearch {
            address: [0u8, 0u8, 0u8, 0u8, 0u8, 0u8, 0u8, 0u8],
            discrepancies: [0u8, 0u8, 0u8, 0u8, 0u8, 0u8, 0u8, 0u8],
            state: SearchState::Initialized,
        };
        proof {
            lemma_zero_byte_clear();
        }
        r
    }

    /// A fresh cursor whose first address byte is seeded with a family code,
    /// so the first call walks the sub-tree rooted at that prefix.
    pub fn new_for_family(family: u8) -> (r: DeviceSearch)
        ensures
            r.state == SearchState::Initialized,
            r.address@ == seq![family, 0u8, 0u8, 0u8, 0u8, 0u8, 0u8, 0u8],
            r.no_discrepancies(),
    {
        let mut search = DeviceSearch::new();
        let ghost s0 = search;
        search.address[0] = family;
        proof {
            assert(search.address@ =~= seq![family, 0u8, 0u8, 0u8, 0u8, 0u8, 0u8, 0u8]);
            assert forall|i: int| 0 <= i < 64 implies !search.disc_bit(i) by {
                assert(!s0.disc_bit(i));
            }
        }
        search
    }

    pub fn is_bit_set_in_address(&self, bit: u8) -> (r: bool)
        ensures
            r == (bit < 64 && self.addr_bit(bit as int)),
    {
        DeviceSearch::is_bit_set(&self.address, bit)
    }

    pub fn set_bit_in_address(&mut self, bit: u8)
        ensures
            forall|j: int|
                0 <= j < 64 ==> #[trigger] final(self).disc_bit(j) == old(self).disc_bit(j),
            final(self).state == old(self).state,
            forall|j: int|
                0 <= j < 64 ==> #[trigger] final(self).addr_bit(j) == (j == bit as int
                    || old(self).addr_bit(j)),
    {
        DeviceSearch::set_bit(&mut self.address, bit);
    }

    pub fn reset_bit_in_address(&mut self, bit: u8)
        ensures
            forall|j: int|
                0 <= j < 64 ==> #[trigger] final(self).disc_bit(j) == old(self).disc_bit(j),
            final(self).state == old(self).state,
            forall|j: int|
                0 <= j < 64 ==> #[trigger] final(self).addr_bit(j) == (j != bit as int
                    && old(self).addr_bit(j)),
    {
        DeviceSearch::reset_bit(&mut self.address, bit);
    }

    pub fn write_bit_in_address(&mut self, bit: u8, value: bool)
        ensures
            forall|j: int|
                0 <= j < 64 ==> #[trigger] final(self).disc_bit(j) == old(self).disc_bit(j),
            final(self).state == old(self).state,
            forall|j: int|
                0 <= j < 64 ==> #[trigger] final(self).addr_bit(j) == (if j == bit as int {
                    value
                } else {
                    old(self).addr_bit(j)
                }),
    {
        if value {
            self.set_bit_in_address(bit);
        } else {
            self.reset_bit_in_address(bit);
        }
    }

    pub fn is_bit_set_in_discrepancies(&self, bit: u8) -> (r: bool)
        ensures
            r == (bit < 64 && self.disc_bit(bit as int)),
    {
        DeviceSearch::is_bit_set(&self.discrepancies, bit)
    }

    pub fn set_bit_in_discrepancy(&mut self, bit: u8)
        ensures
            forall|j: int|
                0 <= j < 64 ==> #[trigger] final(self).addr_bit(j) == old(self).addr_bit(j),
            final(self).state == old(self).state,
            forall|j: int|
                0 <= j < 64 ==> #[trigger] final(self).disc_bit(j) == (j == bit as int
                    || old(self).disc_bit(j)),
    {
        DeviceSearch::set_bit(&mut self.discrepancies, bit);
    }

    pub fn reset_bit_in_discrepancy(&mut self, bit: u8)
        ensures
            forall|j: int|
                0 <= j < 64 ==> #[trigger] final(self).addr_bit(j) == old(self).addr_bit(j),
            final(self).state == old(self).state,
            forall|j: int|
                0 <= j < 64 ==> #[trigger] final(self).disc_bit(j) == (j != bit as int
                    && old(self).disc_bit(j)),
    {
        DeviceSearch::reset_bit(&mut self.discrepancies, bit);
    }

    pub fn write_bit_in_discrepancy(&mut self, bit: u8, value: bool)
        ensures
            forall|j: int|
                0 <= j < 64 ==> #[trigger] final(self).addr_bit(j) == old(self).addr_bit(j),
            final(self).state == old(self).state,
            forall|j: int|
                0 <= j < 64 ==> #[trigger] final(self).disc_bit(j) == (if j == bit as int {
                    value
                } else {
                    old(self).disc_bit(j)
                }),
    {
        if value {
            self.set_bit_in_discrepancy(bit);
        } else {
            self.reset_bit_in_discrepancy(bit);
        }
    }

    fn is_bit_set(array: &[u8; 8], bit: u8) -> (r: bool)
        ensures
            r == (bit < 64 && bit_at(array@, bit as int)),
    {
        if bit / 8 >= 8 {
            return false;
        }
        let index = (bit / 8) as usize;
        let offset = bit % 8;
        let b = array[index];
        let r = b & (1u8 << offset) != 0;
        proof {
            assert((b & (1u8 << offset) != 0) == ((b >> offset) & 1 == 1)) by (bit_vector)
                requires
                    offset < 8,
            ;
        }
        r
    }

    fn set_bit(array: &mut [u8; 8], bit: u8)
        ensures
            bit >= 64 ==> final(array)@ == old(array)@,
            forall|j: int|
                0 <= j < 64 ==> #[trigger] bit_at(final(array)@, j) == (j == bit as int || bit_at(
                    old(array)@,
                    j,
                )),
    {
        if bit / 8 >= 8 {
            return ;
        }
        let index = (bit / 8) as usize;
        let offset = bit % 8;
        let v = array[index];
        array[index] = v | (1u8 << offset);
        proof {
            assert forall|j: int| 0 <= j < 64 implies #[trigger] bit_at(array@, j) == (j
                == bit as int || bit_at(old(array)@, j)) by {
                let jo = (j % 8) as u8;
                if j / 8 == index as int {
                    lemma_or_bit(v, offset, jo);
                    assert(j == bit as int <==> (j / 8 == bit as int / 8 && jo == offset));
                }
            }
        }
    }

    fn reset_bit(array: &mut [u8; 8], bit: u8)
        ensures
            bit >= 64 ==> final(array)@ == old(array)@,
            forall|j: int|
                0 <= j < 64 ==> #[trigger] bit_at(final(array)@, j) == (j != bit as int && bit_at(
                    old(array)@,
                    j,
                )),
    {
        if bit / 8 >= 8 {
            return ;
        }
        let index = (bit / 8) as usize;
        let offset = bit % 8;
        let v = array[index];
        array[index] = v & !(1u8 << offset);
        proof {
            assert forall|j: int| 0 <= j < 64 implies #[trigger] bit_at(array@, j) == (j
                != bit as int && bit_at(old(array)@, j)) by {
                let jo = (j % 8) as u8;
                if j / 8 == index as int {
                    lemma_and_not_bit(v, offset, jo);
                    assert(j == bit as int <==> (j / 8 == bit as int / 8 && jo == offset));
                }
            }
        }
    }

    /// The highest bit index still pending a second visit, or `None`.
    pub fn last_discrepancy(&self) -> (r: Option<u8>)
        ensures
            match r {
                Option::None => self.spec_last_discrepancy() == -1 && self.no_discrepancies(),
                Option::Some(i) => i < 64 && self.spec_last_discrepancy() == i as int
                    && self.disc_bit(i as int) && forall|j: int|
                    i < j < 64 ==> !self.disc_bit(j),
            },
    {
        let mut result: Option<u8> = None;
        let mut i: u8 = 0;
        while i < crate::ADDRESS_BITS
            invariant
                i <= 64,
                match result {
                    Option::None => last_set_below(self.discrepancies@, i as int) == -1,
                    Option::Some(k) => k < i && last_set_below(self.discrepancies@, i as int)
                        == k as int,
                },
            decreases 64 - i,
        {
            if self.is_bit_set_in_discrepancies(i) {
                result = Some(i);
            }
            i = i + 1;
        }
        proof {
            lemma_last_set_below(self.discrepancies@, 64);
        }
        result
    }
}

/// Bit `jo` of `v | (1 << off)` is set iff `jo == off` or it was set in `v`.
proof fn lemma_or_bit(v: u8, off: u8, jo: u8)
    by (bit_vector)
    requires
        off < 8,
        jo < 8,
    ensures
        byte_bit(v | (1u8 << off), jo) == (jo == off || byte_bit(v, jo)),
{
}

/// Bit `jo` of `v & !(1 << off)` is set iff `jo != off` and it was set in `v`.
proof fn lemma_and_not_bit(v: u8, off: u8, jo: u8)
    by (bit_vector)
    requires
        off < 8,
        jo < 8,
    ensures
        byte_bit(v & !(1u8 << off), jo) == (jo != off && byte_bit(v, jo)),
{
}

/// No bit of the zero byte is set.
proof fn lemma_zero_byte_clear()
    by (bit_vector)
    ensures
        forall|off: u8| !byte_bit(0u8, off),
{
}

} // verus!
