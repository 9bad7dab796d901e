//! IP addresses as numbers, their text, and the address classes the router
//! services test.
use crate::text::{decimal, push_decimal};
use vstd::prelude::*;
use vstd::string::StrSliceExecFns;
use vstd::string::StringExecFns;

verus! {

/// An IP address of either family, by its numeric value (network order read
/// as a big-endian number).
#[derive(Clone, Copy, PartialEq, Eq, Structural, Debug)]
pub enum IpAddress {
    V4(u32),
    V6(u128),
}

/// The dotted-decimal text of an IPv4 address.
pub open spec fn ipv4_text(a: u32) -> Seq<char> {
    decimal((a / 0x100_0000) as nat) + "."@ + decimal(((a / 0x1_0000) % 256) as nat) + "."@ + decimal(
        ((a / 256) % 256) as nat,
    ) + "."@ + decimal((a % 256) as nat)
}

/// What the standard library's `Display` of `Ipv6Addr` writes for an address.
pub uninterp spec fn ipv6_display_text(a: u128) -> Seq<char>;

/// Formats an IPv6 address with the standard library's `Ipv6Addr::to_string`.
/// Claims only that the text is the name `ipv6_display_text` of the address.
#[verifier::external_body]
pub(crate) fn ipv6_to_string(a: u128) -> (r: String)
    ensures
        r@ == ipv6_display_text(a),
{
    std::string::ToString::to_string(&core::net::Ipv6Addr::from(a))
}

/// The IPv4 address that an IPv4-mapped IPv6 address (::ffff:a.b.c.d) holds.
pub open spec fn ipv4_mapped(a: u128) -> Option<u32> {
    if a / 0x1_0000_0000 == 0xffff {
        Some((a % 0x1_0000_0000) as u32)
    } else {
        None
    }
}

/// The IPv4 address an IPv6 address maps, if it is IPv4-mapped.
pub fn to_ipv4_mapped(a: u128) -> (r: Option<u32>)
    ensures
        r == ipv4_mapped(a),
{
    if a / 0x1_0000_0000 == 0xffff {
        Some((a % 0x1_0000_0000) as u32)
    } else {
        None
    }
}

/// The dotted-decimal text of an IPv4 address.
pub fn ipv4_to_string(a: u32) -> (r: String)
    ensures
        r@ == ipv4_text(a),
{
    let mut s = String::new();
    push_decimal(&mut s, (a / 0x100_0000) as u64);
    s.append(".");
    push_decimal(&mut s, ((a / 0x1_0000) % 256) as u64);
    s.append(".");
    push_decimal(&mut s, ((a / 256) % 256) as u64);
    s.append(".");
    push_decimal(&mut s, (a % 256) as u64);
    assert(s@ =~= ipv4_text(a));
    s
}

/// The text an address is stored under: IPv4 in dotted decimal, an
/// IPv4-mapped IPv6 address as its IPv4 address, other IPv6 addresses as the
/// standard library writes them.
pub open spec fn clean_ip_text(ip: IpAddress) -> Seq<char> {
    match ip {
        IpAddress::V4(a) => ipv4_text(a),
        IpAddress::V6(a) => match ipv4_mapped(a) {
            Some(v4) => ipv4_text(v4),
            None => ipv6_display_text(a),
        },
    }
}

pub fn clean_ip_string(ip: &IpAddress) -> (r: String)
    ensures
        r@ == clean_ip_text(*ip),
{
    match ip {
        IpAddress::V6(a) => match to_ipv4_mapped(*a) {
            Some(v4) => ipv4_to_string(v4),
            None => ipv6_to_string(*a),
        },
        IpAddress::V4(a) => ipv4_to_string(*a),
    }
}

/// 255.255.255.255.
pub open spec fn ipv4_is_broadcast(a: u32) -> bool {
    a == 0xffff_ffff
}

/// 0.0.0.0.
pub open spec fn ipv4_is_unspecified(a: u32) -> bool {
    a == 0
}

/// 127.0.0.0/8.
pub open spec fn ipv4_is_loopback(a: u32) -> bool {
    a / 0x100_0000 == 127
}

/// Whether an address can serve as a default gateway: it is not the
/// broadcast, unspecified or loopback address.
pub fn usable_gateway(a: u32) -> (r: bool)
    ensures
        r == (!ipv4_is_broadcast(a) && !ipv4_is_unspecified(a) && !ipv4_is_loopback(a)),
{
    a != 0xffff_ffff && a != 0 && a / 0x100_0000 != 127
}

/// The value of a hexadecimal digit, in either case.
pub open spec fn hex_value(c: char) -> Option<u8> {
    if '0' <= c <= '9' {
        Some((c as u32 - '0' as u32) as u8)
    } else if 'a' <= c <= 'f' {
        Some((c as u32 - 'a' as u32 + 10) as u8)
    } else if 'A' <= c <= 'F' {
        Some((c as u32 - 'A' as u32 + 10) as u8)
    } else {
        None
    }
}

/// Whether a text is a MAC address written as six pairs of hexadecimal
/// digits separated by colons.
pub open spec fn is_mac_text(s: Seq<char>) -> bool {
    &&& s.len() == 17
    &&& forall|k: int| 0 <= k < 6 ==> (#[trigger] hex_value(s[3 * k])).is_some() && hex_value(s[3 * k + 1]).is_some()
    &&& forall|k: int| 0 <= k < 5 ==> #[trigger] s[3 * k + 2] == ':'
}

/// The byte a pair of hexadecimal digits of a MAC address text stands for.
pub open spec fn mac_byte(s: Seq<char>, k: int) -> u8 {
    (hex_value(s[3 * k]).unwrap() * 16 + hex_value(s[3 * k + 1]).unwrap()) as u8
}

fn hex_digit(c: char) -> (r: Option<u8>)
    ensures
        r == hex_value(c),
{
    if '0' <= c && c <= '9' {
        Some((c as u32 - '0' as u32) as u8)
    } else if 'a' <= c && c <= 'f' {
        Some((c as u32 - 'a' as u32 + 10) as u8)
    } else if 'A' <= c && c <= 'F' {
        Some((c as u32 - 'A' as u32 + 10) as u8)
    } else {
        None
    }
}

/// Reads a MAC address written as `aa:bb:cc:dd:ee:ff` (digits in either
/// case); none for any other text.
pub fn parse_mac(s: &str) -> (r: Option<[u8; 6]>)
    ensures
        r.is_some() == is_mac_text(s@),
        r matches Some(m) ==> forall|k: int| 0 <= k < 6 ==> #[trigger] m@[k] == mac_byte(s@, k),
{
    if s.unicode_len() != 17 {
        return None;
    }
    let mut bytes: Vec<u8> = Vec::new();
    let mut k: usize = 0;
    while k < 6
        invariant
            s@.len() == 17,
            k <= 6,
            bytes.len() == k,
            forall|j: int| 0 <= j < k ==> (#[trigger] hex_value(s@[3 * j])).is_some() && hex_value(s@[3 * j + 1]).is_some(),
            forall|j: int| 0 <= j < k && j < 5 ==> #[trigger] s@[3 * j + 2] == ':',
            forall|j: int| 0 <= j < k ==> #[trigger] bytes@[j] == mac_byte(s@, j),
        decreases 6 - k,
    {
        let hi = hex_digit(s.get_char(3 * k));
        let lo = hex_digit(s.get_char(3 * k + 1));
        match (hi, lo) {
            (Some(h), Some(l)) => {
                if k < 5 && s.get_char(3 * k + 2) != ':' {
                    assert(!(s@[3 * (k as int) + 2] == ':'));
                    return None;
                }
                bytes.push(h * 16 + l);
            },
            _ => {
                assert(!((hex_value(s@[3 * (k as int)])).is_some() && hex_value(s@[3 * (k as int) + 1]).is_some()));
                return None;
            },
        }
        k = k + 1;
    }
    let m: [u8; 6] = [bytes[0], bytes[1], bytes[2], bytes[3], bytes[4], bytes[5]];
    assert forall|k: int| 0 <= k < 6 implies #[trigger] m@[k] == mac_byte(s@, k) by {
        assert(m@[k] == bytes@[k]);
    }
    Some(m)
}

} // verus!
