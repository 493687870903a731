//! Host-side driver for the 1-Wire bus: bit/byte framing, ROM-code search,
//! and CRC-8 checking, layered over a caller-supplied open-drain pin.
use vstd::prelude::*;

pub mod device;
pub mod driver;
pub mod search;

pub use device::Device;
pub use driver::BitDriver;
pub use driver::ByteDriver;
pub use driver::Driver;
pub use driver::embedded_opendrain::BlockingOpenDrainDriver;
pub use driver::embedded_opendrain::DelayUs;
pub use driver::embedded_opendrain::OpenDrainOutput;
pub use search::DeviceSearch;
pub use search::SearchState;

verus! {

/// Number of bytes in a ROM code.
pub const ADDRESS_BYTES: u8 = 8;

/// Number of bits in a ROM code.
pub const ADDRESS_BITS: u8 = 64;

/// Command opcodes the bus coordinator issues after a reset.
#[derive(Clone, Copy, Debug)]
pub enum Command {
    SelectRom,
    SearchNext,
    SearchNextAlarmed,
}

impl Command {
    /// The opcode byte transmitted on the wire for this command.
    pub open spec fn spec_value(self) -> u8 {
        match self {
            Command::SelectRom => 0x55,
            Command::SearchNext => 0xF0,
            Command::SearchNextAlarmed => 0xEC,
        }
    }

    pub fn value(self) -> (r: u8)
        ensures
            r == self.spec_value(),
    {
        match self {
            Command::SelectRom => 0x55,
            Command::SearchNext => 0xF0,
            Command::SearchNextAlarmed => 0xEC,
        }
    }
}

/// Everything that can go wrong on the bus or while validating data read
/// from it.
#[derive(Clone, Copy, Debug, PartialEq)]
pub enum Error {
    /// The wire did not float high at the start of a reset: stuck low or
    /// shorted.
    WireNotHigh,
    /// A CRC-8 check failed: holds (computed, expected).
    CrcMismatch(u8, u8),
    /// A device decoder found a family code other than the one it serves:
    /// holds (expected, got).
    FamilyCodeMismatch(u8, u8),
    /// Reserved diagnostic slot; no core path produces it.
    Debug(Option<u8>),
}

/// What one search mini-round tells the master at a bit position, read off
/// the two answer slots: every remaining slave sends its bit, then its
/// complement.
#[derive(Clone, Copy, Debug, PartialEq, Eq, Structural)]
pub enum SearchStep {
    /// Both slots read 1: no slave responded at all.
    Abort,
    /// Both slots read 0: slaves with a 0 and slaves with a 1 both exist.
    Fork,
    /// The slots agree with each other's complement: every remaining slave
    /// has this bit value.
    Forced(bool),
}

/// The interpretation table of one (bit, complement-bit) answer pair.
pub open spec fn spec_classify_answer(bit0: bool, bit1: bool) -> SearchStep {
    if bit0 && bit1 {
        SearchStep::Abort
    } else if !bit0 && !bit1 {
        SearchStep::Fork
    } else {
        SearchStep::Forced(bit0)
    }
}

/// Classifies the two answer slots of one search mini-round.
pub fn classify_answer(bit0: bool, bit1: bool) -> (r: SearchStep)
    ensures
        r == spec_classify_answer(bit0, bit1),
{
    if bit0 && bit1 {
        SearchStep::Abort
    } else if !bit0 && !bit1 {
        SearchStep::Fork
    } else {
        SearchStep::Forced(bit0)
    }
}

/// The bus coordinator: owns one byte driver and exposes the user-facing
/// transactions, including the resumable search enumerator.
pub struct OneWire<D: ByteDriver> {
    pub driver: D,
}

impl<D: ByteDriver> OneWire<D> {
    pub fn new(driver: D) -> (r: OneWire<D>)
        ensures
            r.driver == driver,
    {
        OneWire { driver }
    }

    /// Reset, select `device`, write `write`, then read `read.len()` bytes
    /// into `read`. An absent presence pulse is not an error; the only error
    /// surfaced is `WireNotHigh` from the bit layer.
    pub fn reset_select_write_read(
        &mut self,
        device: &Device,
        write: &[u8],
        read: &mut Vec<u8>,
    ) -> (res: Result<(), Error>)
        ensures
            final(read)@.len() == old(read)@.len(),
            res matches Err(e) ==> e == Error::WireNotHigh,
    {
        match self.driver.reset() {
            Ok(_) => {},
            Err(e) => { return Err(e) },
        }
        match self.select(device) {
            Ok(()) => {},
            Err(e) => { return Err(e) },
        }
        match self.driver.write_bytes(write) {
            Ok(()) => {},
            Err(e) => { return Err(e) },
        }
        match self.driver.read_bytes(read) {
            Ok(()) => {},
            Err(e) => { return Err(e) },
        }
        Ok(())
    }

    /// Reset, select `device`, then read `read.len()` bytes into `read`.
    pub fn reset_select_read_only(&mut self, device: &Device, read: &mut Vec<u8>) -> (res: Result<
        (),
        Error,
    >)
        ensures
            final(read)@.len() == old(read)@.len(),
            res matches Err(e) ==> e == Error::WireNotHigh,
    {
        match self.driver.reset() {
            Ok(_) => {},
            Err(e) => { return Err(e) },
        }
        match self.select(device) {
            Ok(()) => {},
            Err(e) => { return Err(e) },
        }
        match self.driver.read_bytes(read) {
            Ok(()) => {},
            Err(e) => { return Err(e) },
        }
        Ok(())
    }

    /// Reset, select `device`, then write `write`.
    pub fn reset_select_write_only(&mut self, device: &Device, write: &[u8]) -> (res: Result<
        (),
        Error,
    >)
        ensures
            res matches Err(e) ==> e == Error::WireNotHigh,
    {
        match self.driver.reset() {
            Ok(_) => {},
            Err(e) => { return Err(e) },
        }
        match self.select(device) {
            Ok(()) => {},
            Err(e) => { return Err(e) },
        }
        match self.driver.write_bytes(write) {
            Ok(()) => {},
            Err(e) => { return Err(e) },
        }
        Ok(())
    }

    /// Addresses one device: the select-ROM opcode followed by the eight
    /// address bytes, LSB-first.
    pub fn select(&mut self, device: &Device) -> (res: Result<(), Error>)
        ensures
            res matches Err(e) ==> e == Error::WireNotHigh,
    {
        match self.write_command(Command::SelectRom) {
            Ok(()) => {},
            Err(e) => { return Err(e) },
        }
        self.driver.write_bytes(device.address.as_slice())
    }

    /// Enumerates the next device on the bus, resuming from `search`.
    pub fn search_next(&mut self, search: &mut DeviceSearch) -> (res: Result<
        Option<Device>,
        Error,
    >) where D: BitDriver
        ensures
            search_post(*old(search), *final(search), *old(self), *final(self), res),
    {
        self.search(search, Command::SearchNext)
    }

    /// Enumerates the next device currently asserting an alarm condition.
    pub fn search_next_alarmed(&mut self, search: &mut DeviceSearch) -> (res: Result<
        Option<Device>,
        Error,
    >) where D: BitDriver
        ensures
            search_post(*old(search), *final(search), *old(self), *final(self), res),
    {
        self.search(search, Command::SearchNextAlarmed)
    }

    /// One pass of the search state machine: reset, issue the search command,
    /// replay the prefix up to the last pending branch, take its 1-branch,
    /// then walk the remaining bits recording any new discrepancies.
    #[verifier::loop_isolation(false)]
    fn search(&mut self, rom: &mut DeviceSearch, command: Command) -> (res: Result<
        Option<Device>,
        Error,
    >) where D: BitDriver
        ensures
            search_post(*old(rom), *final(rom), *old(self), *final(self), res),
    {
        if SearchState::End == rom.state {
            return Ok(None);
        }
        let ghost gl: int = rom.spec_last_discrepancy();

        let mut discrepancy_found = false;
        let last_discrepancy = rom.last_discrepancy();

        let presence = match self.driver.reset() {
            Ok(p) => p,
            Err(e) => { return Err(e) },
        };
        if !presence {
            return Ok(None);
        }

        match self.write_command(command) {
            Ok(()) => {},
            Err(e) => { return Err(e) },
        }

        if let Some(ld) = last_discrepancy {
            // Replay phase: re-steer onto the path that produced the previous
            // result by writing the cursor's own address bits back.
            let mut i: u8 = 0;
            while i < ld
                invariant
                    i <= ld,
                decreases ld - i,
            {
                let bit0 = match self.driver.read_bit() {
                    Ok(b) => b,
                    Err(e) => { return Err(e) },
                };
                let bit1 = match self.driver.read_bit() {
                    Ok(b) => b,
                    Err(e) => { return Err(e) },
                };
                if classify_answer(bit0, bit1) == SearchStep::Abort {
                    // No device responded.
                    return Ok(None);
                }
                let bit = rom.is_bit_set_in_address(i);
                match self.driver.write_bit(bit) {
                    Ok(()) => {},
                    Err(e) => { return Err(e) },
                }
                i = i + 1;
            }
        } else {
            // No pending branch and a device already yielded: the one found
            // was the only one.
            if rom.state == SearchState::DeviceFound {
                rom.state = SearchState::End;
                return Ok(None);
            }
        }

        let start: u8 = match last_discrepancy {
            Some(ld) => ld,
            None => 0,
        };
        let ghost mut disc_witness: int = 0;
        let mut i: u8 = start;
        while i < ADDRESS_BITS
            invariant
                start <= i <= 64,
                forall|j: int|
                    0 <= j < gl ==> rom.addr_bit(j) == old(rom).addr_bit(j) && rom.disc_bit(j)
                        == old(rom).disc_bit(j),
                gl >= 0 && i > gl ==> rom.addr_bit(gl) && !rom.disc_bit(gl),
                forall|j: int|
                    i as int <= j < 64 ==> rom.disc_bit(j) == old(rom).disc_bit(j) && rom.addr_bit(
                        j,
                    ) == old(rom).addr_bit(j),
                forall|j: int|
                    start as int <= j < i as int ==> (#[trigger] rom.disc_bit(j) ==> j > gl
                        && !rom.addr_bit(j)),
                discrepancy_found ==> i > gl,
                discrepancy_found ==> 0 <= disc_witness < 64 && rom.disc_bit(disc_witness),
                rom.state == old(rom).state,
            decreases 64 - i,
        {
            let bit0 = match self.driver.read_bit() {
                Ok(b) => b,
                Err(e) => { return Err(e) },
            };
            let bit1 = match self.driver.read_bit() {
                Ok(b) => b,
                Err(e) => { return Err(e) },
            };

            let is_pending_branch = match last_discrepancy {
                Some(ld) => ld == i,
                None => false,
            };
            if is_pending_branch {
                // The branch pending a second visit: previously the 0-path
                // was taken, so take the 1-path now and retire the branch.
                rom.reset_bit_in_discrepancy(i);
                rom.set_bit_in_address(i);
                match self.driver.write_bit(true) {
                    Ok(()) => {},
                    Err(e) => { return Err(e) },
                }
            } else {
                match classify_answer(bit0, bit1) {
                    SearchStep::Abort => {
                        // No response received.
                        return Ok(None);
                    }
                    SearchStep::Fork => {
                        // Both a 0-device and a 1-device exist here: a new
                        // discrepancy. Take the 0-path first, by convention.
                        discrepancy_found = true;
                        proof {
                            disc_witness = i as int;
                        }
                        rom.set_bit_in_discrepancy(i);
                        rom.reset_bit_in_address(i);
                        match self.driver.write_bit(false) {
                            Ok(()) => {},
                            Err(e) => { return Err(e) },
                        }
                    }
                    SearchStep::Forced(bit) => {
                        // All remaining devices agree on this value.
                        rom.write_bit_in_address(i, bit);
                        match self.driver.write_bit(bit) {
                            Ok(()) => {},
                            Err(e) => { return Err(e) },
                        }
                    }
                }
            }
            i = i + 1;
        }

        let remaining = rom.last_discrepancy();
        let ghost walked = *rom;
        if !discrepancy_found && remaining.is_none() {
            rom.state = SearchState::End;
            proof {
                assert forall|q: int| 0 <= q < 64 implies !rom.disc_bit(q) by {
                    assert(!walked.disc_bit(q));
                }
            }
        } else {
            rom.state = SearchState::DeviceFound;
            proof {
                if discrepancy_found {
                    assert(walked.disc_bit(disc_witness));
                    assert(rom.disc_bit(disc_witness));
                } else {
                    let k = walked.spec_last_discrepancy();
                    assert(walked.disc_bit(k));
                    assert(rom.disc_bit(k));
                }
            }
        }
        proof {
            if forall|j: int| 0 <= j < 64 && old(rom).disc_bit(j) ==> !old(rom).addr_bit(j) {
                assert forall|j: int| 0 <= j < 64 && rom.disc_bit(j) implies !rom.addr_bit(j) by {
                    assert(rom.disc_bit(j) == walked.disc_bit(j));
                    assert(rom.addr_bit(j) == walked.addr_bit(j));
                    if j < gl {
                        assert(old(rom).disc_bit(j) ==> !old(rom).addr_bit(j));
                    }
                }
            }
        }
        Ok(Some(Device { address: rom.address }))
    }

    /// Transmits a command opcode.
    fn write_command(&mut self, command: Command) -> (res: Result<(), Error>)
        ensures
            res matches Err(e) ==> e == Error::WireNotHigh,
    {
        self.driver.write_byte(command.value())
    }
}

/// Everything one search pass promises, whatever the slaves answered.
///
/// An exhausted cursor is returned untouched with `None` and the bus is not
/// driven. A yielded device is a copy of the cursor's address, the cursor
/// leaves `Initialized`, and it reads `End` exactly when no branch anywhere
/// is pending. Address and pending-branch bits below the branch that was
/// re-visited survive the call, and on success that branch is retired onto
/// its 1-path. A pass that yields nothing either leaves the phase alone (a
/// silent bus, a lost slave) or marks a cursor whose only device was already
/// yielded as exhausted. The only error that can surface is `WireNotHigh`,
/// and it leaves the phase alone.
pub open spec fn search_post<D: ByteDriver>(
    rom0: DeviceSearch,
    rom1: DeviceSearch,
    bus0: OneWire<D>,
    bus1: OneWire<D>,
    res: Result<Option<Device>, Error>,
) -> bool {
    &&& rom0.state == SearchState::End ==> res == Ok::<Option<Device>, Error>(None) && rom1 == rom0
        && bus1 == bus0
    &&& (res matches Err(e) ==> e == Error::WireNotHigh && rom1.state == rom0.state)
    &&& (rom0.state != SearchState::End && res == Ok::<Option<Device>, Error>(None) ==> (rom1.state
        == rom0.state || (rom0.state == SearchState::DeviceFound && rom0.spec_last_discrepancy()
        == -1 && rom1.address == rom0.address && rom1.discrepancies == rom0.discrepancies
        && rom1.state == SearchState::End)))
    &&& (forall|j: int|
        0 <= j < rom0.spec_last_discrepancy() ==> rom1.addr_bit(j) == rom0.addr_bit(j)
            && rom1.disc_bit(j) == rom0.disc_bit(j))
    &&& (res matches Ok(Some(d)) ==> {
        &&& d.address == rom1.address
        &&& rom1.state != SearchState::Initialized
        &&& (rom1.state == SearchState::End <==> rom1.no_discrepancies())
        &&& (rom0.spec_last_discrepancy() >= 0 ==> rom1.addr_bit(rom0.spec_last_discrepancy())
            && !rom1.disc_bit(rom0.spec_last_discrepancy()))
        &&& (forall|j: int| 0 <= j < 64 && rom0.disc_bit(j) ==> !rom0.addr_bit(j)) ==> (forall|
            j: int,
        |
            0 <= j < 64 && rom1.disc_bit(j) ==> !rom1.addr_bit(j))
    })
}

/// Progress: a resumed call that yields a device walks an address strictly
/// greater, in the bit-0-first lexicographic order, than the address the
/// cursor held: the re-visited branch flips from its 0-path to its 1-path and
/// everything below it is replayed unchanged. An enumeration therefore never
/// yields the same path twice and must exhaust the tree.
///
/// The hypothesis that every pending branch sits on a 0-path holds of a fresh
/// cursor (no branch is pending) and is preserved by every successful call,
/// as `search_post` states.
pub proof fn lemma_search_progress<D: ByteDriver>(
    rom0: DeviceSearch,
    rom1: DeviceSearch,
    bus0: OneWire<D>,
    bus1: OneWire<D>,
    res: Result<Option<Device>, Error>,
)
    requires
        forall|j: int| 0 <= j < 64 && rom0.disc_bit(j) ==> !rom0.addr_bit(j),
        rom0.spec_last_discrepancy() >= 0,
        search_post(rom0, rom1, bus0, bus1, res),
        res matches Ok(Some(_)),
    ensures
        exists|k: int|
            0 <= k < 64 && (#[trigger] rom1.addr_bit(k)) && !rom0.addr_bit(k) && (forall|j: int|
                0 <= j < k ==> rom1.addr_bit(j) == rom0.addr_bit(j)),
{
    let k = rom0.spec_last_discrepancy();
    crate::search::lemma_last_set_below(rom0.discrepancies@, 64);
    assert(rom0.disc_bit(k));
    assert(!rom0.addr_bit(k));
    assert(rom1.addr_bit(k));
    assert(0 <= k < 64 && rom1.addr_bit(k) && !rom0.addr_bit(k) && (forall|j: int|
        0 <= j < k ==> rom1.addr_bit(j) == rom0.addr_bit(j)));
}

/// One step of the reflected CRC-8: mixes the low bits of the running value
/// and the input byte, shifts, and conditionally folds in the polynomial 0x8C.
pub open spec fn crc8_bit_step(crc: u8, byte: u8) -> u8 {
    if (crc ^ byte) & 1 == 1 {
        (crc >> 1) ^ 0x8C
    } else {
        crc >> 1
    }
}

/// `n` bit steps of the CRC-8, consuming `byte` from its least significant
/// bit up.
pub open spec fn crc8_bits(crc: u8, byte: u8, n: nat) -> u8
    decreases n,
{
    if n == 0 {
        crc
    } else {
        crc8_bits(crc8_bit_step(crc, byte), byte >> 1u8, (n - 1) as nat)
    }
}

/// Folds one whole byte into the running CRC-8.
pub open spec fn crc8_byte(crc: u8, byte: u8) -> u8 {
    crc8_bits(crc, byte, 8)
}

/// The Maxim 1-Wire CRC-8 (polynomial 0x8C, initial value `crc`) over `data`,
/// first byte first.
pub open spec fn crc8_fold(crc: u8, data: Seq<u8>) -> u8
    decreases data.len(),
{
    if data.len() == 0 {
        crc
    } else {
        crc8_fold(crc8_byte(crc, data[0]), data.drop_first())
    }
}

/// Folding one more byte at the end continues the fold of the prefix.
pub proof fn lemma_crc8_fold_push(crc: u8, data: Seq<u8>, b: u8)
    ensures
        crc8_fold(crc, data.push(b)) == crc8_byte(crc8_fold(crc, data), b),
    decreases data.len(),
{
    assert(data.push(b).len() == data.len() + 1);
    assert(crc8_fold(crc, data.push(b)) == crc8_fold(
        crc8_byte(crc, data.push(b)[0]),
        data.push(b).drop_first(),
    ));
    if data.len() == 0 {
        assert(data.push(b)[0] == b);
        assert(data.push(b).drop_first() =~= Seq::<u8>::empty());
        assert(crc8_fold(crc8_byte(crc, b), Seq::<u8>::empty()) == crc8_byte(crc, b));
    } else {
        assert(data.push(b)[0] == data[0]);
        assert(data.push(b).drop_first() =~= data.drop_first().push(b));
        lemma_crc8_fold_push(crc8_byte(crc, data[0]), data.drop_first(), b);
        assert(crc8_fold(crc, data) == crc8_fold(crc8_byte(crc, data[0]), data.drop_first()));
    }
}

/// Folding a byte equal to the running CRC always cancels it to zero: while
/// the two stay equal the mix bit is clear, so both just shift out.
proof fn lemma_crc8_byte_self(c: u8)
    ensures
        crc8_byte(c, c) == 0,
{
    lemma_crc8_bits_equal(c, 8);
    reveal_with_fuel(shr_times, 9);
    assert(shr_times(c, 8) == c >> 1u8 >> 1u8 >> 1u8 >> 1u8 >> 1u8 >> 1u8 >> 1u8 >> 1u8);
    assert(c >> 1u8 >> 1u8 >> 1u8 >> 1u8 >> 1u8 >> 1u8 >> 1u8 >> 1u8 == 0) by (bit_vector);
}

/// With equal arguments every bit step only shifts, so `n` steps shift `n`
/// times.
proof fn lemma_crc8_bits_equal(c: u8, n: nat)
    ensures
        crc8_bits(c, c, n) == shr_times(c, n),
    decreases n,
{
    if n > 0 {
        assert((c ^ c) & 1 != 1) by (bit_vector);
        lemma_crc8_bits_equal(c >> 1u8, (n - 1) as nat);
    }
}

/// `x` shifted right one bit at a time, `n` times.
spec fn shr_times(x: u8, n: nat) -> u8
    decreases n,
{
    if n == 0 {
        x
    } else {
        shr_times(x >> 1u8, (n - 1) as nat)
    }
}

/// CRC round trip: appending the CRC-8 of a buffer to that buffer yields a
/// buffer whose CRC-8 is zero. In particular a ROM code whose byte 7 is the
/// CRC-8 of bytes 0..7 checks to zero over all eight bytes.
pub proof fn lemma_crc8_append_self(data: Seq<u8>)
    ensures
        crc8_fold(0, data.push(crc8_fold(0, data))) == 0,
{
    lemma_crc8_fold_push(0, data, crc8_fold(0, data));
    lemma_crc8_byte_self(crc8_fold(0, data));
}

/// Folds `data` into the running CRC-8 `crc`, LSB-first within each byte,
/// using the reflected polynomial 0x8C.
pub fn compute_partial_crc8(crc: u8, data: &[u8]) -> (r: u8)
    ensures
        r == crc8_fold(crc, data@),
{
    let ghost initial: u8 = crc;
    let mut crc = crc;
    let mut i: usize = 0;
    proof {
        assert(data@.skip(0) =~= data@);
    }
    while i < data.len()
        invariant
            i <= data@.len(),
            crc8_fold(crc, data@.skip(i as int)) == crc8_fold(initial, data@),
        decreases data@.len() - i,
    {
        let mut byte = data[i];
        let ghost byte0: u8 = byte;
        let ghost crc0: u8 = crc;
        let mut n: u8 = 0;
        while n < 8
            invariant
                n <= 8,
                crc8_bits(crc, byte, (8 - n) as nat) == crc8_byte(crc0, byte0),
            decreases 8 - n,
        {
            let mix = (crc ^ byte) & 0x01;
            proof {
                assert(mix == 0 || mix == 1) by (bit_vector)
                    requires
                        mix == (crc ^ byte) & 0x01,
                ;
            }
            crc = crc >> 1;
            if mix != 0x00 {
                crc = crc ^ 0x8C;
            }
            byte = byte >> 1;
            n = n + 1;
        }
        proof {
            assert(data@.skip(i as int)[0] == data@[i as int]);
            assert(data@.skip(i as int).drop_first() =~= data@.skip(i as int + 1));
        }
        i = i + 1;
    }
    proof {
        assert(data@.skip(data@.len() as int) =~= Seq::<u8>::empty());
    }
    crc
}

/// The CRC-8 of a device's ROM code followed by `data`: the fold of the
/// eight address bytes first, then of the data bytes.
pub fn compute_crc8(device: &Device, data: &[u8]) -> (r: u8)
    ensures
        r == crc8_fold(crc8_fold(0, device.address@), data@),
{
    let crc = compute_partial_crc8(0u8, device.address.as_slice());
    compute_partial_crc8(crc, data)
}

/// Checks `data` read from `device` against an expected CRC byte: `Ok` when
/// the computed CRC-8 over address and data equals `crc8`, and otherwise
/// exactly `CrcMismatch(computed, expected)`.
pub fn ensure_correct_rcr8(device: &Device, data: &[u8], crc8: u8) -> (res: Result<(), Error>)
    ensures
        ({
            let computed = crc8_fold(crc8_fold(0, device.address@), data@);
            &&& (res matches Ok(()) <==> computed == crc8)
            &&& (computed != crc8 ==> res == Err::<(), Error>(Error::CrcMismatch(computed, crc8)))
        }),
{
    let computed = compute_crc8(device, data);
    if computed != crc8 {
        Err(Error::CrcMismatch(computed, crc8))
    } else {
        Ok(())
    }
}

} // verus!
