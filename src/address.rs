use vstd::prelude::*;

use crate::text::push_char;

verus! {

/// The six-octet link-layer address of a Bluetooth device; `octets[0]` is the
/// most significant octet.
#[derive(Clone, Copy, Debug, PartialEq, Eq, Default)]
pub struct BdAddr {
    pub octets: [u8; 6],
}

/// The upper-case hexadecimal digit of a value below sixteen.
pub open spec fn hex_digit(v: u8) -> char
    recommends
        v < 16,
{
    if v < 10 {
        ((v + 48) as u8) as char
    } else {
        ((v + 55) as u8) as char
    }
}

/// The two upper-case hexadecimal digits of an octet.
pub open spec fn octet_text(o: u8) -> Seq<char> {
    seq![hex_digit(o / 16), hex_digit(o % 16)]
}

/// The text of an address: six pairs of upper-case hexadecimal digits,
/// most significant first, separated by colons.
pub open spec fn address_text(o: Seq<u8>) -> Seq<char>
    recommends
        o.len() == 6,
{
    octet_text(o[0]) + seq![':'] + octet_text(o[1]) + seq![':'] + octet_text(o[2]) + seq![':']
        + octet_text(o[3]) + seq![':'] + octet_text(o[4]) + seq![':'] + octet_text(o[5])
}

fn hex_digit_exec(v: u8) -> (c: char)
    requires
        v < 16,
    ensures
        c == hex_digit(v),
{
    if v < 10 {
        (v + 48) as char
    } else {
        (v + 55) as char
    }
}

fn push_octet(s: &mut String, o: u8)
    ensures
        final(s)@ == old(s)@ + octet_text(o),
{
    push_char(s, hex_digit_exec(o / 16));
    push_char(s, hex_digit_exec(o % 16));
    assert(final(s)@ =~= old(s)@ + octet_text(o));
}

impl BdAddr {
    /// Builds an address from its octets, most significant first.
    pub fn new(octets: [u8; 6]) -> (r: BdAddr)
        ensures
            r.octets@ == octets@,
    {
        BdAddr { octets }
    }

    /// The address written as `XX:XX:XX:XX:XX:XX` in upper-case hexadecimal.
    pub fn to_string(&self) -> (r: String)
        ensures
            r@ == address_text(self.octets@),
    {
        let mut s = String::new();
        push_octet(&mut s, self.octets[0]);
        push_char(&mut s, ':');
        push_octet(&mut s, self.octets[1]);
        push_char(&mut s, ':');
        push_octet(&mut s, self.octets[2]);
        push_char(&mut s, ':');
        push_octet(&mut s, self.octets[3]);
        push_char(&mut s, ':');
        push_octet(&mut s, self.octets[4]);
        push_char(&mut s, ':');
        push_octet(&mut s, self.octets[5]);
        assert(s@ =~= address_text(self.octets@));
        s
    }
}

} // verus!
