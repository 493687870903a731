//! The device value type: family accessor and canonical hex rendering.
use onewire::Device;

#[test]
fn family_code_is_byte_zero() {
    let d = Device { address: [0x28, 0xFF, 0x64, 0x1E, 0xA1, 0xB4, 0xE1, 0x3C] };
    assert_eq!(d.family_code(), 0x28);
    let d = Device { address: [0x10, 0, 0, 0, 0, 0, 0, 0] };
    assert_eq!(d.family_code(), 0x10);
}

#[test]
fn hex_rendering_is_lowercase_and_colon_separated() {
    let d = Device { address: [0x28, 0xFF, 0x64, 0x1E, 0xA1, 0xB4, 0xE1, 0x3C] };
    assert_eq!(d.hex_string(), "28:ff:64:1e:a1:b4:e1:3c");
    let d = Device { address: [0x00, 0x01, 0x09, 0x0A, 0x0F, 0x10, 0x99, 0xF0] };
    assert_eq!(d.hex_string(), "00:01:09:0a:0f:10:99:f0");
}
