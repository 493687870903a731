//! The bit-banged open-drain driver on simulated pins, and the byte layer
//! over a loopback bit driver.
use onewire::BitDriver;
use onewire::BlockingOpenDrainDriver;
use onewire::ByteDriver;
use onewire::DelayUs;
use onewire::Driver;
use onewire::Error;
use onewire::OpenDrainOutput;

struct NoDelay;

impl DelayUs for NoDelay {
    fn delay_us(&mut self, _us: u16) {}
}

/// A wire that is stuck low: a short, or a slave holding the bus.
struct StuckLowPin;

impl OpenDrainOutput for StuckLowPin {
    fn set_high(&mut self) {}

    fn set_low(&mut self) {}

    fn is_high(&mut self) -> bool {
        false
    }
}

/// A healthy but empty wire: the pull-up always wins.
struct FloatingPin;

impl OpenDrainOutput for FloatingPin {
    fn set_high(&mut self) {}

    fn set_low(&mut self) {}

    fn is_high(&mut self) -> bool {
        true
    }
}

#[test]
fn stuck_low_wire_fails_reset_with_wire_not_high() {
    let mut driver = BlockingOpenDrainDriver::new(StuckLowPin, NoDelay);
    assert!(matches!(driver.reset(), Err(Error::WireNotHigh)));
}

#[test]
fn empty_wire_resets_without_presence() {
    let mut driver = BlockingOpenDrainDriver::new(FloatingPin, NoDelay);
    assert!(matches!(driver.reset(), Ok(false)));
}

#[test]
fn read_bit_samples_the_wire_level() {
    let mut driver = BlockingOpenDrainDriver::new(FloatingPin, NoDelay);
    assert!(matches!(driver.read_bit(), Ok(true)));
    let mut driver = BlockingOpenDrainDriver::new(StuckLowPin, NoDelay);
    assert!(matches!(driver.read_bit(), Ok(false)));
}

/// A bus that hands every written bit back to the next read, in order.
struct Loopback {
    sent: Vec<bool>,
    next: usize,
}

impl Loopback {
    fn new() -> Loopback {
        Loopback { sent: Vec::new(), next: 0 }
    }
}

impl Driver for Loopback {
    fn reset(&mut self) -> Result<bool, Error> {
        Ok(true)
    }
}

impl BitDriver for Loopback {
    fn read_bit(&mut self) -> Result<bool, Error> {
        let bit = if self.next < self.sent.len() { self.sent[self.next] } else { true };
        self.next += 1;
        Ok(bit)
    }

    fn write_bit(&mut self, data: bool) -> Result<(), Error> {
        self.sent.push(data);
        Ok(())
    }
}

#[test]
fn bit_roundtrip_over_loopback() {
    for value in [false, true] {
        let mut bus = Loopback::new();
        bus.write_bit(value).unwrap();
        assert_eq!(bus.read_bit().unwrap(), value);
    }
}

#[test]
fn byte_roundtrip_over_loopback() {
    for value in [0x00u8, 0x01, 0xA5, 0xF0, 0x55, 0xFF] {
        let mut bus = Loopback::new();
        bus.write_byte(value).unwrap();
        assert_eq!(bus.read_byte().unwrap(), value);
    }
}

#[test]
fn bytes_are_transmitted_bit_zero_first() {
    let mut bus = Loopback::new();
    bus.write_byte(0b1000_0110).unwrap();
    assert_eq!(
        bus.sent,
        vec![false, true, true, false, false, false, false, true],
    );
}

#[test]
fn bulk_byte_roundtrip_over_loopback() {
    let mut bus = Loopback::new();
    bus.write_bytes(&[0x12, 0x34, 0x56]).unwrap();
    let mut back = vec![0u8; 3];
    bus.read_bytes(&mut back).unwrap();
    assert_eq!(back, vec![0x12, 0x34, 0x56]);
}
