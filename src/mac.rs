use vstd::prelude::*;

verus! {

pub open spec fn is_hex(c: char) -> bool {
    ||| '0' <= c <= '9'
    ||| 'a' <= c <= 'f'
    ||| 'A' <= c <= 'F'
}

pub open spec fn hex_value(c: char) -> int {
    if '0' <= c <= '9' {
        (c as u32) - ('0' as u32)
    } else if 'a' <= c <= 'f' {
        (c as u32) - ('a' as u32) + 10
    } else {
        (c as u32) - ('A' as u32) + 10
    }
}

/// `s` is six two-digit hexadecimal octets separated by colons.
pub open spec fn mac_text(s: Seq<char>) -> bool {
    &&& s.len() == 17
    &&& forall|i: int| 0 <= i < 17 && i % 3 == 2 ==> #[trigger] s[i] == ':'
    &&& forall|i: int| 0 <= i < 17 && i % 3 != 2 ==> is_hex(#[trigger] s[i])
}

/// The value of the `j`-th octet of a MAC address text.
pub open spec fn mac_octet(s: Seq<char>, j: int) -> int {
    16 * hex_value(s[3 * j]) + hex_value(s[3 * j + 1])
}

/// The Wake-on-LAN payload: six bytes `0xFF`, then the MAC address sixteen
/// times.
pub open spec fn magic_payload(mac: Seq<u8>) -> Seq<u8> {
    Seq::new(102, |i: int| if i < 6 { 0xFFu8 } else { mac[(i - 6) % 6] })
}

fn hex_digit(c: char) -> (r: Option<u8>)
    ensures
        match r {
            Some(v) => is_hex(c) && v == hex_value(c),
            None => !is_hex(c),
        },
{
    if c >= '0' && c <= '9' {
        Some((c as u32 - '0' as u32) as u8)
    } else if c >= 'a' && c <= 'f' {
        Some((c as u32 - 'a' as u32 + 10) as u8)
    } else if c >= 'A' && c <= 'F' {
        Some((c as u32 - 'A' as u32 + 10) as u8)
    } else {
        None
    }
}

/// Reads a MAC address written as `AA:BB:CC:DD:EE:FF`; any other shape gives
/// `None`.
pub fn parse_mac_address(mac_address_str: &str) -> (r: Option<[u8; 6]>)
    ensures
        match r {
            Some(b) => mac_text(mac_address_str@) && forall|j: int|
                0 <= j < 6 ==> b@[j] == mac_octet(mac_address_str@, j),
            None => !mac_text(mac_address_str@),
        },
{
    let s = mac_address_str;
    let len = s.unicode_len();
    if len != 17 {
        return None;
    }
    let mut octets: Vec<u8> = Vec::new();
    let mut j: usize = 0;
    while j < 6
        invariant
            len == s@.len() == 17,
            s@ == mac_address_str@,
            j <= 6,
            octets@.len() == j,
            forall|i: int| 0 <= i < 3 * j && i < 17 && i % 3 == 2 ==> #[trigger] s@[i] == ':',
            forall|i: int| 0 <= i < 3 * j && i < 17 && i % 3 != 2 ==> is_hex(#[trigger] s@[i]),
            forall|m: int| 0 <= m < j ==> octets@[m] == mac_octet(s@, m),
        decreases 6 - j,
    {
        let hi = match hex_digit(s.get_char(3 * j)) {
            Some(v) => v,
            None => {
                assert((3 * j) as int % 3 != 2);
                assert(!is_hex(s@[(3 * j) as int]));
                assert(!mac_text(mac_address_str@));
                return None;
            },
        };
        let lo = match hex_digit(s.get_char(3 * j + 1)) {
            Some(v) => v,
            None => {
                assert((3 * j + 1) as int % 3 != 2);
                assert(!is_hex(s@[(3 * j + 1) as int]));
                assert(!mac_text(mac_address_str@));
                return None;
            },
        };
        if j < 5 && s.get_char(3 * j + 2) != ':' {
            assert((3 * j + 2) as int % 3 == 2);
            return None;
        }
        octets.push(hi * 16 + lo);
        proof {
            assert forall|i: int| 0 <= i < 3 * (j + 1) && i < 17 && i % 3 == 2 implies #[trigger] s@[i]
                == ':' by {
                if i >= 3 * j {
                    assert(i == 3 * j + 2);
                }
            }
            assert forall|i: int| 0 <= i < 3 * (j + 1) && i < 17 && i % 3 != 2 implies is_hex(
                #[trigger] s@[i],
            ) by {
                if i >= 3 * j {
                    assert(i == 3 * j || i == 3 * j + 1);
                }
            }
        }
        j = j + 1;
    }
    Some([octets[0], octets[1], octets[2], octets[3], octets[4], octets[5]])
}

/// Relies on wake_on_lan's `MagicPacket::new` and `MagicPacket::magic_bytes`:
/// the packet built for a MAC address holds six bytes `0xFF` followed by the
/// address repeated sixteen times.
#[verifier::external_body]
fn magic_bytes_of(mac: &[u8; 6]) -> (r: Vec<u8>)
    ensures
        r@ == magic_payload(mac@),
{
    wake_on_lan::MagicPacket::new(mac).magic_bytes().to_vec()
}

/// The 102-byte Wake-on-LAN payload for a MAC address.
pub fn magic_packet(mac: [u8; 6]) -> (r: Vec<u8>)
    ensures
        r@ == magic_payload(mac@),
        r@.len() == 102,
{
    magic_bytes_of(&mac)
}

} // verus!
