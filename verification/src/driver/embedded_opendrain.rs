//! A blocking bit-layer implementation over a single open-drain pin with an
//! external pull-up, using field-tuned standard-speed timings.
use vstd::prelude::*;

use crate::Error;
use crate::driver::BitDriver;
use crate::driver::Driver;

verus! {

/// An open-drain-capable pin: release to the pull-up, drive low, sample.
/// Platform adapters implement this for their GPIO types.
pub trait OpenDrainOutput {
    /// Releases the wire so the pull-up (or a slave) decides its level.
    fn set_high(&mut self);

    /// Drives the wire low.
    fn set_low(&mut self);

    /// Samples the current level of the wire.
    fn is_high(&mut self) -> bool;
}

/// A busy-wait provider with microsecond resolution; supplied by the caller.
pub trait DelayUs {
    fn delay_us(&mut self, us: u16);
}

/// Drives the wire through reset, read-bit and write-bit slots by bit-banging
/// one open-drain pin, blocking on the caller's delay provider.
pub struct BlockingOpenDrainDriver<P: OpenDrainOutput, D: DelayUs> {
    pin: P,
    delay: D,
}

impl<P: OpenDrainOutput, D: DelayUs> BlockingOpenDrainDriver<P, D> {
    pub fn new(pin: P, delay: D) -> (r: BlockingOpenDrainDriver<P, D>) {
        BlockingOpenDrainDriver { pin, delay }
    }

    /// Lets the slave devices change the state of the wire: the pin floats
    /// and is pulled up unless a slave pulls it down.
    fn set_input(&mut self) {
        self.pin.set_high()
    }

    /// No longer lets the slave devices change the state of the wire. No
    /// action is needed: `write_low` drives the pin and `write_high` releases
    /// it to the pull-up.
    fn set_output(&mut self) {
    }

    /// Pulls the wire down.
    fn write_low(&mut self) {
        self.pin.set_low()
    }

    /// Releases the wire so the pull-up takes it high.
    fn write_high(&mut self) {
        self.pin.set_high()
    }

    /// Samples the current state of the wire.
    fn read(&mut self) -> bool {
        self.pin.is_high()
    }

    /// Waits up to 250 microseconds, probing every ~2, for the wire to float
    /// high; a wire that never does is stuck low or shorted.
    fn ensure_wire_high(&mut self) -> (r: Result<(), Error>)
        ensures
            r matches Err(e) ==> e == Error::WireNotHigh,
    {
        let mut probe: u8 = 0;
        while probe < 125
            invariant
                probe <= 125,
            decreases 125 - probe,
        {
            let high = match self.read_bit() {
                Ok(b) => b,
                Err(e) => { return Err(e) },
            };
            if high {
                return Ok(());
            }
            self.delay.delay_us(2);
            probe = probe + 1;
        }
        Err(Error::WireNotHigh)
    }
}

impl<P: OpenDrainOutput, D: DelayUs> Driver for BlockingOpenDrainDriver<P, D> {
    /// Waits for the wire to float high, holds it low for 480 microseconds,
    /// releases it, and samples the presence window several times: any low
    /// sample means a slave asserted a presence pulse.
    fn reset(&mut self) -> (r: Result<bool, Error>) {
        self.set_input();
        match self.ensure_wire_high() {
            Ok(()) => {},
            Err(e) => { return Err(e) },
        }
        self.write_low();
        self.set_output();
        self.delay.delay_us(480);
        self.set_input();

        let mut val = false;
        let mut sample: u8 = 0;
        while sample < 7
            invariant
                sample <= 7,
            decreases 7 - sample,
        {
            self.delay.delay_us(10);
            let high = match self.read_bit() {
                Ok(b) => b,
                Err(e) => { return Err(e) },
            };
            val = val || !high;
            sample = sample + 1;
        }
        self.delay.delay_us(410);
        Ok(val)
    }
}

impl<P: OpenDrainOutput, D: DelayUs> BitDriver for BlockingOpenDrainDriver<P, D> {
    /// Pulls low briefly, releases, samples once inside the slot, then idles
    /// out the remainder. The timings are field-tuned offsets of the nominal
    /// standard-speed values.
    fn read_bit(&mut self) -> (r: Result<bool, Error>) {
        self.set_output();
        self.write_low();
        self.delay.delay_us(3);
        self.set_input();
        self.delay.delay_us(2);
        let val = self.read();
        self.delay.delay_us(61);
        Ok(val)
    }

    /// One ~70 microsecond slot: a short low pulse for a 1, a long one for a
    /// 0, with the complementary idle to fill the slot.
    fn write_bit(&mut self, high: bool) -> (r: Result<(), Error>) {
        self.write_low();
        self.set_output();
        self.delay.delay_us(if high { 10 } else { 65 });
        self.write_high();
        self.delay.delay_us(if high { 55 } else { 5 });
        Ok(())
    }
}

} // verus!
