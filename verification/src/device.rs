//! A discovered slave device: one 8-byte ROM code, with its family accessor
//! and the canonical colon-separated lowercase hex rendering.
use vstd::prelude::*;

verus! {

/// One slave on the bus, identified by its 64-bit ROM code: byte 0 is the
/// family code, bytes 1..7 the serial number, byte 7 a CRC-8 over the rest.
#[derive(Clone, Copy, Debug, PartialEq)]
pub struct Device {
    pub address: [u8; 8],
}

/// The lowercase hex character for a nibble value.
pub open spec fn hex_digit(n: u8) -> char
    recommends
        n < 16,
{
    if n == 0 {
        '0'
    } else if n == 1 {
        '1'
    } else if n == 2 {
        '2'
    } else if n == 3 {
        '3'
    } else if n == 4 {
        '4'
    } else if n == 5 {
        '5'
    } else if n == 6 {
        '6'
    } else if n == 7 {
        '7'
    } else if n == 8 {
        '8'
    } else if n == 9 {
        '9'
    } else if n == 10 {
        'a'
    } else if n == 11 {
        'b'
    } else if n == 12 {
        'c'
    } else if n == 13 {
        'd'
    } else if n == 14 {
        'e'
    } else {
        'f'
    }
}

/// Two lowercase hex characters for a byte, high nibble first.
pub open spec fn byte_hex(b: u8) -> Seq<char> {
    seq![hex_digit(b / 16), hex_digit(b % 16)]
}

/// The colon-separated rendering of the first `n` bytes of `addr`.
pub open spec fn hex_render(addr: Seq<u8>, n: int) -> Seq<char>
    decreases n,
{
    if n <= 0 {
        Seq::empty()
    } else if n == 1 {
        byte_hex(addr[0])
    } else {
        hex_render(addr, n - 1) + seq![':'] + byte_hex(addr[n - 1])
    }
}

impl Device {
    /// Byte 0 of the ROM code names the device model.
    pub fn family_code(&self) -> (r: u8)
        ensures
            r == self.address@[0],
    {
        self.address[0]
    }

    /// The canonical rendering of the full ROM code: `hh:hh:hh:hh:hh:hh:hh:hh`,
    /// lowercase, bytes in index order.
    pub open spec fn spec_hex_string(self) -> Seq<char> {
        hex_render(self.address@, 8)
    }

    pub fn hex_string(&self) -> (r: String)
        ensures
            r@ == self.spec_hex_string(),
    {
        let mut s = String::new();
        let mut j: usize = 0;
        while j < 8
            invariant
                j <= 8,
                s@ == hex_render(self.address@, j as int),
            decreases 8 - j,
        {
            if j > 0 {
                let colon = colon_str();
                s.append(colon);
            }
            append_byte_hex(&mut s, self.address[j]);
            j = j + 1;
        }
        s
    }
}

/// The one-character string for a nibble value.
fn nibble_str(n: u8) -> (r: &'static str)
    requires
        n < 16,
    ensures
        r@ == seq![hex_digit(n)],
{
    proof {
        reveal_strlit("0");
        reveal_strlit("1");
        reveal_strlit("2");
        reveal_strlit("3");
        reveal_strlit("4");
        reveal_strlit("5");
        reveal_strlit("6");
        reveal_strlit("7");
        reveal_strlit("8");
        reveal_strlit("9");
        reveal_strlit("a");
        reveal_strlit("b");
        reveal_strlit("c");
        reveal_strlit("d");
        reveal_strlit("e");
        reveal_strlit("f");
    }
    let r: &'static str = if n == 0 {
        "0"
    } else if n == 1 {
        "1"
    } else if n == 2 {
        "2"
    } else if n == 3 {
        "3"
    } else if n == 4 {
        "4"
    } else if n == 5 {
        "5"
    } else if n == 6 {
        "6"
    } else if n == 7 {
        "7"
    } else if n == 8 {
        "8"
    } else if n == 9 {
        "9"
    } else if n == 10 {
        "a"
    } else if n == 11 {
        "b"
    } else if n == 12 {
        "c"
    } else if n == 13 {
        "d"
    } else if n == 14 {
        "e"
    } else {
        "f"
    };
    proof {
        assert(r@ =~= seq![hex_digit(n)]);
    }
    r
}

/// The separator between rendered bytes.
fn colon_str() -> (r: &'static str)
    ensures
        r@ == seq![':'],
{
    proof {
        reveal_strlit(":");
        assert(":"@ =~= seq![':']);
    }
    ":"
}

/// Appends the two hex characters of `b` to `s`.
fn append_byte_hex(s: &mut String, b: u8)
    ensures
        final(s)@ == old(s)@ + byte_hex(b),
{
    let hi = nibble_str(b / 16);
    let lo = nibble_str(b % 16);
    s.append(hi);
    s.append(lo);
    proof {
        assert(s@ =~= old(s)@ + byte_hex(b));
    }
}

} // verus!
