//! Enumeration against a simulated bus: a mock bit driver that models any
//! number of slaves answering search rounds with wired-AND semantics.
use onewire::BitDriver;
use onewire::Device;
use onewire::DeviceSearch;
use onewire::Driver;
use onewire::Error;
use onewire::OneWire;
use onewire::SearchState;
use onewire::SearchStep;
use onewire::classify_answer;
use onewire::compute_partial_crc8;

#[derive(Clone, Copy)]
enum Phase {
    Idle,
    Command { value: u8, bits: u8 },
    Search { bit: u8, sub: u8 },
}

struct MockBus {
    devices: Vec<[u8; 8]>,
    alarmed: Vec<bool>,
    active: Vec<bool>,
    phase: Phase,
    resets: usize,
    bit_ops: usize,
}

impl MockBus {
    fn new(devices: Vec<[u8; 8]>) -> MockBus {
        let n = devices.len();
        MockBus {
            devices,
            alarmed: vec![true; n],
            active: vec![false; n],
            phase: Phase::Idle,
            resets: 0,
            bit_ops: 0,
        }
    }

    fn rom_bit(code: &[u8; 8], bit: u8) -> bool {
        code[(bit / 8) as usize] & (1u8 << (bit % 8)) != 0
    }

    /// Open-drain wired-AND: any active slave sending 0 pulls the line low.
    fn line_read(&self, bit: u8, complement: bool) -> bool {
        let mut level = true;
        for (k, dev) in self.devices.iter().enumerate() {
            if self.active[k] {
                let b = MockBus::rom_bit(dev, bit);
                let sent = if complement { !b } else { b };
                if !sent {
                    level = false;
                }
            }
        }
        level
    }
}

impl Driver for MockBus {
    fn reset(&mut self) -> Result<bool, Error> {
        self.resets += 1;
        for a in self.active.iter_mut() {
            *a = false;
        }
        self.phase = Phase::Command { value: 0, bits: 0 };
        Ok(!self.devices.is_empty())
    }
}

impl BitDriver for MockBus {
    fn read_bit(&mut self) -> Result<bool, Error> {
        self.bit_ops += 1;
        let r = match self.phase {
            Phase::Search { bit, sub } => {
                let level = self.line_read(bit, sub != 0);
                self.phase = Phase::Search { bit, sub: sub + 1 };
                level
            }
            _ => true,
        };
        Ok(r)
    }

    fn write_bit(&mut self, data: bool) -> Result<(), Error> {
        self.bit_ops += 1;
        match self.phase {
            Phase::Command { value, bits } => {
                let value = if data { value | (1u8 << bits) } else { value };
                if bits == 7 {
                    match value {
                        0xF0 => {
                            for a in self.active.iter_mut() {
                                *a = true;
                            }
                            self.phase = Phase::Search { bit: 0, sub: 0 };
                        }
                        0xEC => {
                            for k in 0..self.devices.len() {
                                self.active[k] = self.alarmed[k];
                            }
                            self.phase = Phase::Search { bit: 0, sub: 0 };
                        }
                        _ => {
                            self.phase = Phase::Idle;
                        }
                    }
                } else {
                    self.phase = Phase::Command { value, bits: bits + 1 };
                }
            }
            Phase::Search { bit, sub } => {
                if sub >= 2 {
                    for k in 0..self.devices.len() {
                        if self.active[k] && MockBus::rom_bit(&self.devices[k], bit) != data {
                            self.active[k] = false;
                        }
                    }
                    if bit == 63 {
                        self.phase = Phase::Idle;
                    } else {
                        self.phase = Phase::Search { bit: bit + 1, sub: 0 };
                    }
                }
            }
            Phase::Idle => {}
        }
        Ok(())
    }
}

/// Builds a ROM code whose byte 7 is the correct CRC-8 of bytes 0..7.
fn make_rom(family: u8, serial: [u8; 6]) -> [u8; 8] {
    let mut rom = [0u8; 8];
    rom[0] = family;
    rom[1..7].copy_from_slice(&serial);
    rom[7] = compute_partial_crc8(0, &rom[..7]);
    rom
}

/// Runs `search_next` to exhaustion, panicking if it takes more than
/// `max_calls` calls to see `None`.
fn enumerate(
    wire: &mut OneWire<MockBus>,
    cursor: &mut DeviceSearch,
    max_calls: usize,
) -> Vec<[u8; 8]> {
    let mut found = Vec::new();
    let mut calls = 0;
    loop {
        calls += 1;
        assert!(calls <= max_calls, "enumeration took more than {} calls", max_calls);
        match wire.search_next(cursor) {
            Ok(Some(d)) => found.push(d.address),
            Ok(None) => return found,
            Err(e) => panic!("unexpected bus error: {:?}", e),
        }
    }
}

#[test]
fn empty_bus_returns_none() {
    let mut wire = OneWire::new(MockBus::new(vec![]));
    let mut cursor = DeviceSearch::new();
    let r = wire.search_next(&mut cursor).unwrap();
    assert!(r.is_none());
    // An absent presence pulse ends this call only; the cursor was never
    // advanced by a discovery, so it does not read End.
    assert_eq!(cursor.state, SearchState::Initialized);
    assert_eq!(wire.driver.resets, 1);
}

#[test]
fn single_device_enumerated_once() {
    let rom = [0x28, 0xFF, 0x64, 0x1E, 0xA1, 0xB4, 0xE1, 0x3C];
    let mut wire = OneWire::new(MockBus::new(vec![rom]));
    let mut cursor = DeviceSearch::new();

    let first = wire.search_next(&mut cursor).unwrap();
    assert_eq!(first, Some(Device { address: rom }));
    assert_eq!(cursor.discrepancies, [0u8; 8]);
    // With no discrepancy recorded anywhere the cursor is exhausted as soon
    // as the only device has been yielded.
    assert_eq!(cursor.state, SearchState::End);

    let second = wire.search_next(&mut cursor).unwrap();
    assert!(second.is_none());
    assert_eq!(cursor.state, SearchState::End);
}

#[test]
fn exhausted_cursor_does_not_touch_the_bus() {
    let rom = make_rom(0x28, [1, 2, 3, 4, 5, 6]);
    let mut wire = OneWire::new(MockBus::new(vec![rom]));
    let mut cursor = DeviceSearch::new();
    assert!(wire.search_next(&mut cursor).unwrap().is_some());
    assert_eq!(cursor.state, SearchState::End);

    let resets = wire.driver.resets;
    let bit_ops = wire.driver.bit_ops;
    for _ in 0..3 {
        assert!(wire.search_next(&mut cursor).unwrap().is_none());
    }
    assert_eq!(wire.driver.resets, resets);
    assert_eq!(wire.driver.bit_ops, bit_ops);
    assert_eq!(cursor.state, SearchState::End);
}

#[test]
fn two_devices_split_at_bit_8() {
    // Both family 0x28; byte 1 is 0x01 versus 0x02, so the first divergence
    // is bit 8 (byte 1, bit 0).
    let a = [0x28, 0x01, 0x44, 0x55, 0x66, 0x77, 0x88, 0xA1];
    let b = [0x28, 0x02, 0x44, 0x55, 0x66, 0x77, 0x88, 0xB2];
    let mut wire = OneWire::new(MockBus::new(vec![a, b]));
    let mut cursor = DeviceSearch::new();

    // The 0-branch is taken first: the device with bit 8 == 0 is b (0x02 has
    // bit 0 clear).
    let first = wire.search_next(&mut cursor).unwrap().unwrap();
    assert_eq!(first.address, b);
    assert_eq!(cursor.state, SearchState::DeviceFound);
    // Exactly bit 8 is pending: byte 1 == 0x01, all other bytes zero.
    assert_eq!(cursor.discrepancies, [0, 0x01, 0, 0, 0, 0, 0, 0]);

    let second = wire.search_next(&mut cursor).unwrap().unwrap();
    assert_eq!(second.address, a);

    let third = wire.search_next(&mut cursor).unwrap();
    assert!(third.is_none());
    assert_eq!(cursor.state, SearchState::End);
}

#[test]
fn three_devices_colliding_at_bits_8_and_24() {
    // d1 splits from d2/d3 at bit 8; d2 and d3 split at bit 24.
    let d1 = make_rom(0x28, [0x00, 0x10, 0x00, 0x00, 0x00, 0x00]);
    let d2 = make_rom(0x28, [0x01, 0x10, 0x00, 0x00, 0x00, 0x00]);
    let d3 = make_rom(0x28, [0x01, 0x10, 0x01, 0x00, 0x00, 0x00]);
    let mut wire = OneWire::new(MockBus::new(vec![d1, d2, d3]));
    let mut cursor = DeviceSearch::new();

    let mut found = Vec::new();
    for _ in 0..3 {
        let d = wire.search_next(&mut cursor).unwrap().unwrap();
        assert!(!found.contains(&d.address), "device yielded twice");
        found.push(d.address);
    }
    assert!(wire.search_next(&mut cursor).unwrap().is_none());

    let mut expected = vec![d1, d2, d3];
    expected.sort();
    found.sort();
    assert_eq!(found, expected);
}

#[test]
fn enumeration_is_complete_and_bounded() {
    let roms = vec![
        make_rom(0x28, [0xFF, 0x64, 0x1E, 0xA1, 0xB4, 0xE1]),
        make_rom(0x28, [0x00, 0x64, 0x1E, 0xA1, 0xB4, 0xE1]),
        make_rom(0x10, [0x13, 0x57, 0x9B, 0xDF, 0x24, 0x68]),
        make_rom(0x22, [0xAA, 0x55, 0xAA, 0x55, 0xAA, 0x55]),
        make_rom(0x28, [0xFF, 0x64, 0x1E, 0xA1, 0xB4, 0xE0]),
    ];
    let n = roms.len();
    let mut wire = OneWire::new(MockBus::new(roms.clone()));
    let mut cursor = DeviceSearch::new();

    // Each device once, in at most N+1 calls.
    let mut found = enumerate(&mut wire, &mut cursor, n + 1);
    assert_eq!(found.len(), n);
    let mut expected = roms;
    expected.sort();
    found.sort();
    expected.dedup();
    assert_eq!(found, expected);
    assert_eq!(cursor.state, SearchState::End);
}

#[test]
fn family_filter_yields_only_that_family() {
    let hygro = make_rom(0x10, [0x13, 0x57, 0x9B, 0xDF, 0x24, 0x68]);
    let thermo = make_rom(0x28, [0xFF, 0x64, 0x1E, 0xA1, 0xB4, 0xE1]);
    let mut wire = OneWire::new(MockBus::new(vec![hygro, thermo]));

    let mut cursor = DeviceSearch::new_for_family(0x10);
    let first = wire.search_next(&mut cursor).unwrap().unwrap();
    assert_eq!(first.family_code(), 0x10);
    assert_eq!(first.address, hygro);

    // Querying for the other family with a fresh seeded cursor: iterate,
    // keeping only matching family codes, until exhaustion.
    let mut cursor = DeviceSearch::new_for_family(0x28);
    let mut of_family = Vec::new();
    loop {
        match wire.search_next(&mut cursor).unwrap() {
            Some(d) => {
                if d.family_code() == 0x28 {
                    of_family.push(d.address);
                }
            }
            None => break,
        }
    }
    assert_eq!(of_family, vec![thermo]);
}

#[test]
fn alarmed_search_sees_only_alarmed_devices() {
    let calm = make_rom(0x28, [0x01, 0x02, 0x03, 0x04, 0x05, 0x06]);
    let alarmed = make_rom(0x28, [0x0A, 0x0B, 0x0C, 0x0D, 0x0E, 0x0F]);
    let mut bus = MockBus::new(vec![calm, alarmed]);
    bus.alarmed = vec![false, true];
    let mut wire = OneWire::new(bus);

    let mut cursor = DeviceSearch::new();
    let first = wire.search_next_alarmed(&mut cursor).unwrap().unwrap();
    assert_eq!(first.address, alarmed);
    assert!(wire.search_next_alarmed(&mut cursor).unwrap().is_none());
}

#[test]
fn yielded_addresses_satisfy_their_crc() {
    let roms = vec![
        make_rom(0x28, [0x11, 0x22, 0x33, 0x44, 0x55, 0x66]),
        make_rom(0x10, [0x77, 0x88, 0x99, 0xAA, 0xBB, 0xCC]),
    ];
    let mut wire = OneWire::new(MockBus::new(roms));
    let mut cursor = DeviceSearch::new();
    loop {
        match wire.search_next(&mut cursor).unwrap() {
            Some(d) => {
                assert_eq!(compute_partial_crc8(0, &d.address), 0);
            }
            None => break,
        }
    }
}

#[test]
fn transactions_read_an_idle_bus_as_ones() {
    let rom = make_rom(0x28, [0x11, 0x22, 0x33, 0x44, 0x55, 0x66]);
    let mut wire = OneWire::new(MockBus::new(vec![rom]));
    let device = Device { address: rom };

    let mut buf = vec![0u8; 4];
    wire.reset_select_write_read(&device, &[0xBE], &mut buf).unwrap();
    // Nothing answers after the select on this mock, so every read slot
    // samples the pulled-up wire.
    assert_eq!(buf, vec![0xFF; 4]);

    let mut buf = vec![0u8; 2];
    wire.reset_select_read_only(&device, &mut buf).unwrap();
    assert_eq!(buf.len(), 2);

    wire.reset_select_write_only(&device, &[0x44, 0x48]).unwrap();
    assert!(wire.driver.resets >= 3);
}

#[test]
fn answer_slots_are_classified_by_the_protocol_table() {
    assert_eq!(classify_answer(false, true), SearchStep::Forced(false));
    assert_eq!(classify_answer(true, false), SearchStep::Forced(true));
    assert_eq!(classify_answer(false, false), SearchStep::Fork);
    assert_eq!(classify_answer(true, true), SearchStep::Abort);
}

#[test]
fn last_discrepancy_reports_highest_pending_bit() {
    let mut cursor = DeviceSearch::new();
    assert_eq!(cursor.last_discrepancy(), None);
    cursor.discrepancies = [0x01, 0, 0, 0x10, 0, 0, 0, 0];
    // Bit 0 and bit 28 are set; the highest wins.
    assert_eq!(cursor.last_discrepancy(), Some(28));
    cursor.discrepancies = [0, 0, 0, 0, 0, 0, 0, 0x80];
    assert_eq!(cursor.last_discrepancy(), Some(63));
}
