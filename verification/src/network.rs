//! Addresses of network interfaces: hardware addresses and addresses with a
//! prefix length.

use crate::text::{parse_decimal, parsed_decimal};
use vstd::prelude::*;
use vstd::string::*;

verus! {

/// `c` is a hexadecimal digit in either case.
pub open spec fn is_hex(c: char) -> bool {
    ('0' <= c && c <= '9') || ('a' <= c && c <= 'f') || ('A' <= c && c <= 'F')
}

/// The value of the hexadecimal digit `c`.
pub open spec fn hex_value(c: char) -> int {
    if '0' <= c && c <= '9' {
        c as int - '0' as int
    } else if 'a' <= c && c <= 'f' {
        c as int - 'a' as int + 10
    } else {
        c as int - 'A' as int + 10
    }
}

/// The lower-case hexadecimal digit for `d`, which is below sixteen.
pub open spec fn hex_digit(d: int) -> char {
    if d < 10 {
        (d + '0' as int) as char
    } else {
        (d - 10 + 'a' as int) as char
    }
}

/// `c` with an upper-case ASCII letter turned into its lower-case form.
pub open spec fn lower(c: char) -> char {
    if 'A' <= c && c <= 'Z' {
        (c as int + 32) as char
    } else {
        c
    }
}

/// The octet that a group of two characters stands for: both are
/// hexadecimal digits, the first counting sixteenfold.
pub open spec fn group_value(a: char, b: char) -> Option<u8> {
    if is_hex(a) && is_hex(b) {
        Some((16 * hex_value(a) + hex_value(b)) as u8)
    } else {
        None
    }
}

/// `s` has the outline of a hardware address: six groups of two characters
/// with a colon between them.
pub open spec fn has_mac_outline(s: Seq<char>) -> bool {
    s.len() == 17 && s[2] == ':' && s[5] == ':' && s[8] == ':' && s[11] == ':' && s[14] == ':'
}

/// The six octets that `s` stands for, if it is a hardware address.
pub open spec fn mac_value(s: Seq<char>) -> Option<Seq<u8>> {
    if has_mac_outline(s) && (forall|k: int|
        0 <= k < 6 ==> (#[trigger] group_value(s[3 * k], s[3 * k + 1])) is Some) {
        Some(Seq::new(6, |k: int| group_value(s[3 * k], s[3 * k + 1])->0))
    } else {
        None
    }
}

/// The canonical text of six octets: two lower-case hexadecimal digits for
/// each, with colons between.
pub open spec fn mac_text(octets: Seq<u8>) -> Seq<char> {
    Seq::new(
        17,
        |i: int|
            if i % 3 == 2 {
                ':'
            } else if i % 3 == 0 {
                hex_digit(octets[i / 3] as int / 16)
            } else {
                hex_digit(octets[i / 3] as int % 16)
            },
    )
}

/// `s` is a hardware address written with two hexadecimal digits for every
/// octet, in either case.
pub open spec fn is_mac_text(s: Seq<char>) -> bool {
    has_mac_outline(s) && forall|i: int| 0 <= i < 17 && i % 3 != 2 ==> is_hex(#[trigger] s[i])
}

/// Text that is no hardware address.
#[derive(Debug, Clone, Copy, PartialEq, Eq, Structural)]
pub struct InvalidMacAddr;

/// A hardware address.
#[derive(Debug, Clone, Copy, PartialEq, Eq, PartialOrd, Ord)]
pub struct MacAddr([u8; 6]);

impl View for MacAddr {
    type V = Seq<u8>;

    closed spec fn view(&self) -> Seq<u8> {
        self.0@
    }
}

fn hex_of(c: char) -> (out: Option<u8>)
    ensures
        out is Some <==> is_hex(c),
        out is Some ==> out->0 as int == hex_value(c) && out->0 < 16,
{
    if c >= '0' && c <= '9' {
        Some((c as u8) - 48)
    } else if c >= 'a' && c <= 'f' {
        Some((c as u8) - 97 + 10)
    } else if c >= 'A' && c <= 'F' {
        Some((c as u8) - 65 + 10)
    } else {
        None
    }
}

fn group_of(a: char, b: char) -> (out: Option<u8>)
    ensures
        out == group_value(a, b),
{
    match hex_of(b) {
        Some(low) => match hex_of(a) {
            Some(high) => Some(16 * high + low),
            None => None,
        },
        None => None,
    }
}

fn digit_of(d: u8) -> (out: char)
    requires
        d < 16,
    ensures
        out == hex_digit(d as int),
{
    if d < 10 {
        (d + 48) as char
    } else {
        (d - 10 + 97) as char
    }
}

impl MacAddr {
    /// The address with these six octets.
    pub fn new(octets: [u8; 6]) -> (out: Self)
        ensures
            out@ == octets@,
    {
        MacAddr(octets)
    }

    /// The six octets.
    pub fn octets(&self) -> (out: [u8; 6])
        ensures
            out@ == self@,
    {
        self.0
    }

    /// Reads a hardware address: six groups with colons between them, each
    /// of two hexadecimal digits in either case. Any other text is refused.
    pub fn from_str(s: &str) -> (out: Result<Self, InvalidMacAddr>)
        ensures
            out is Ok <==> is_mac_text(s@),
            out is Ok ==> mac_value(s@) == Some(out->Ok_0@),
    {
        proof {
            lemma_mac_text_is_read(s@);
        }
        let n: usize = s.unicode_len();
        if n != 17 {
            return Err(InvalidMacAddr);
        }
        let mut buf: Vec<u8> = Vec::new();
        let mut k: usize = 0;
        while k < 6
            invariant
                k <= 6,
                s@.len() == 17,
                buf@.len() == k,
                k > 0 ==> s@[2] == ':',
                k > 1 ==> s@[5] == ':',
                k > 2 ==> s@[8] == ':',
                k > 3 ==> s@[11] == ':',
                k > 4 ==> s@[14] == ':',
                forall|j: int|
                    0 <= j < k ==> (#[trigger] group_value(s@[3 * j], s@[3 * j + 1])) == Some(
                        buf@[j],
                    ),
            decreases 6 - k,
        {
            if k < 5 && s.get_char(3 * k + 2) != ':' {
                assert(!has_mac_outline(s@));
                return Err(InvalidMacAddr);
            }
            match group_of(s.get_char(3 * k), s.get_char(3 * k + 1)) {
                Some(v) => {
                    buf.push(v);
                },
                None => {
                    assert(group_value(s@[3 * k], s@[3 * k + 1]) is None);
                    return Err(InvalidMacAddr);
                },
            }
            k = k + 1;
        }
        proof {
            assert(has_mac_outline(s@));
            assert(mac_value(s@) is Some);
            assert(buf@ =~= mac_value(s@)->0);
        }
        let out = MacAddr([buf[0], buf[1], buf[2], buf[3], buf[4], buf[5]]);
        assert(out@ =~= buf@);
        Ok(out)
    }

    /// The canonical text of the address.
    pub fn to_string(&self) -> (out: String)
        ensures
            out@ == mac_text(self@),
    {
        let mut out = String::new();
        let mut k: usize = 0;
        while k < 6
            invariant
                k <= 6,
                out@.len() == (if k == 0 {
                    0int
                } else {
                    3 * k - 1
                }),
                forall|i: int| 0 <= i < out@.len() ==> out@[i] == mac_text(self@)[i],
            decreases 6 - k,
        {
            if k > 0 {
                out.push(':');
            }
            let b: u8 = self.0[k];
            out.push(digit_of(b / 16));
            out.push(digit_of(b % 16));
            k = k + 1;
        }
        assert(out@ =~= mac_text(self@));
        out
    }
}

/// The texts that stand for six octets are the hardware addresses written
/// with two hexadecimal digits for every octet, and no others.
pub proof fn lemma_mac_text_is_read(s: Seq<char>)
    ensures
        is_mac_text(s) <==> mac_value(s) is Some,
{
    if is_mac_text(s) {
        assert forall|k: int| 0 <= k < 6 implies (#[trigger] group_value(s[3 * k], s[3 * k + 1])) is Some by {
            assert(is_hex(s[3 * k]));
            assert(is_hex(s[3 * k + 1]));
        }
    }
    if mac_value(s) is Some {
        assert forall|i: int| 0 <= i < 17 && i % 3 != 2 implies is_hex(#[trigger] s[i]) by {
            let k = i / 3;
            assert(group_value(s[3 * k], s[3 * k + 1]) is Some);
        }
    }
}

/// A hardware address written with two hexadecimal digits for every octet,
/// in either case, is read, and written back in lower case.
pub proof fn lemma_mac_round_trip(s: Seq<char>)
    requires
        is_mac_text(s),
    ensures
        mac_value(s) is Some,
        mac_text(mac_value(s)->0) == s.map_values(|c: char| lower(c)),
{
    assert forall|k: int| 0 <= k < 6 implies (#[trigger] group_value(s[3 * k], s[3 * k + 1])) is Some by {
        assert(is_hex(s[3 * k]));
        assert(is_hex(s[3 * k + 1]));
    }
    let octets = mac_value(s)->0;
    let back = mac_text(octets);
    let low = s.map_values(|c: char| lower(c));
    assert forall|i: int| 0 <= i < 17 implies back[i] == low[i] by {
        let k = i / 3;
        if i % 3 != 2 {
            assert(is_hex(s[3 * k]));
            assert(is_hex(s[3 * k + 1]));
            assert(octets[k] == group_value(s[3 * k], s[3 * k + 1])->0);
            let a = hex_value(s[3 * k]);
            let b = hex_value(s[3 * k + 1]);
            assert(0 <= a < 16 && 0 <= b < 16);
            assert(octets[k] as int == 16 * a + b);
            assert((16 * a + b) / 16 == a && (16 * a + b) % 16 == b);
            assert(hex_digit(a) == lower(s[3 * k]));
            assert(hex_digit(b) == lower(s[3 * k + 1]));
        }
    }
    assert(back =~= low);
}

/// The family of a network address.
#[derive(Debug, Clone, Copy, PartialEq, Eq, PartialOrd, Ord, Structural)]
pub enum Ip {
    /// A version 4 address, as a number.
    V4(u32),
    /// A version 6 address, as a number.
    V6(u128),
}

impl Ip {
    /// The longest prefix that an address of this family can have.
    pub open spec fn max_mask(self) -> nat {
        match self {
            Ip::V4(_) => 32,
            Ip::V6(_) => 128,
        }
    }
}

/// Why text names no address with a prefix length.
#[derive(Debug, Clone, Copy, PartialEq, Eq, Structural)]
pub enum AddressError {
    /// The text is not an address, a slash and a prefix length.
    InvalidCidr,
    /// The prefix length is no number below 256.
    InvalidMask,
    /// The prefix is longer than an address of the family.
    MaskTooLarge,
}

impl AddressError {
    /// The message shown to the user.
    pub fn message(&self) -> (text: String)
        ensures
            text@ == match *self {
                AddressError::InvalidCidr => "invalid CIDR"@,
                AddressError::InvalidMask => "invalid digit found in string"@,
                AddressError::MaskTooLarge => "Mask is larger than possible for this IP class"@,
            },
    {
        match self {
            AddressError::InvalidCidr => String::from_str("invalid CIDR"),
            AddressError::InvalidMask => String::from_str("invalid digit found in string"),
            AddressError::MaskTooLarge => String::from_str(
                "Mask is larger than possible for this IP class",
            ),
        }
    }
}

/// A network address with the length of its prefix. Two addresses are
/// equal when they name the same address, whatever their prefix lengths.
#[derive(Debug, Clone, Copy, Eq, PartialOrd, Ord)]
pub struct Address {
    pub ip: Ip,
    pub mask: u8,
}

impl PartialEq for Address {
    fn eq(&self, other: &Self) -> (out: bool) {
        self.same_ip(other)
    }
}

impl vstd::std_specs::cmp::PartialEqSpecImpl for Address {
    open spec fn obeys_eq_spec() -> bool {
        true
    }

    open spec fn eq_spec(&self, other: &Self) -> bool {
        self.ip == other.ip
    }
}

impl Default for Address {
    fn default() -> (out: Self)
        ensures
            out.ip == Ip::V4(0),
            out.mask == 0,
    {
        Address { ip: Ip::V4(0), mask: 0 }
    }
}

/// The only slash of `s` stands at `p`.
pub open spec fn only_slash_at(s: Seq<char>, p: int) -> bool {
    &&& 0 <= p < s.len()
    &&& s[p] == '/'
    &&& forall|j: int| 0 <= j < s.len() && j != p ==> s[j] != '/'
}

/// The two sides of the slash in `s`, where it holds exactly one.
pub open spec fn cidr_split(s: Seq<char>) -> Option<(Seq<char>, Seq<char>)> {
    if exists|p: int| only_slash_at(s, p) {
        let p = choose|p: int| only_slash_at(s, p);
        Some((s.take(p), s.skip(p + 1)))
    } else {
        None
    }
}

/// The address that `ip` and the text of a prefix length make.
pub open spec fn address_value(ip: Ip, mask: Seq<char>) -> Result<Address, AddressError> {
    match parsed_decimal(mask, 255) {
        None => Err(AddressError::InvalidMask),
        Some(m) => if m > ip.max_mask() {
            Err(AddressError::MaskTooLarge)
        } else {
            Ok(Address { ip, mask: m as u8 })
        },
    }
}

impl Address {
    /// The texts of the address and of the prefix length in `s`, which
    /// holds them with one slash between.
    pub fn split(s: &str) -> (out: Result<(String, String), AddressError>)
        ensures
            match out {
                Ok((ip, mask)) => cidr_split(s@) == Some((ip@, mask@)),
                Err(e) => e == AddressError::InvalidCidr && cidr_split(s@) is None,
            },
    {
        let n: usize = s.unicode_len();
        let mut at: Option<usize> = None;
        let mut i: usize = 0;
        while i < n
            invariant
                i <= n,
                n == s@.len(),
                match at {
                    Some(p) => p < i && s@[p as int] == '/' && forall|j: int|
                        0 <= j < i && j != p ==> s@[j] != '/',
                    None => forall|j: int| 0 <= j < i ==> s@[j] != '/',
                },
            decreases n - i,
        {
            if s.get_char(i) == '/' {
                match at {
                    Some(p) => {
                        assert forall|q: int| !only_slash_at(s@, q) by {
                            if q == p {
                                assert(s@[i as int] == '/');
                            } else {
                                assert(s@[p as int] == '/');
                            }
                        }
                        return Err(AddressError::InvalidCidr);
                    },
                    None => {},
                }
                at = Some(i);
            }
            i = i + 1;
        }
        match at {
            Some(p) => {
                proof {
                    assert(only_slash_at(s@, p as int));
                    let q = choose|q: int| only_slash_at(s@, q);
                    assert(q == p);
                    assert(s@.take(p as int) == s@.subrange(0, p as int));
                    assert(s@.skip(p + 1) == s@.subrange(p + 1, n as int));
                }
                Ok(
                    (
                        String::from_str(s.substring_char(0, p)),
                        String::from_str(s.substring_char(p + 1, n)),
                    ),
                )
            },
            None => {
                assert forall|q: int| !only_slash_at(s@, q) by {}
                Err(AddressError::InvalidCidr)
            },
        }
    }

    /// The address `ip` with the prefix length that `mask` names.
    pub fn new(ip: Ip, mask: &str) -> (out: Result<Self, AddressError>)
        ensures
            out === address_value(ip, mask@),
    {
        let m: u32 = match parse_decimal(mask, 255) {
            Some(m) => m,
            None => {
                return Err(AddressError::InvalidMask);
            },
        };
        let limit: u32 = match ip {
            Ip::V4(_) => 32,
            Ip::V6(_) => 128,
        };
        if m > limit {
            return Err(AddressError::MaskTooLarge);
        }
        Ok(Address { ip, mask: m as u8 })
    }

    /// Whether both name the same address, whatever their prefix lengths.
    pub fn same_ip(&self, other: &Self) -> (out: bool)
        ensures
            out == (self.ip == other.ip),
    {
        match (self.ip, other.ip) {
            (Ip::V4(a), Ip::V4(b)) => a == b,
            (Ip::V6(a), Ip::V6(b)) => a == b,
            _ => false,
        }
    }

    /// The text of the address, from the text of its number part.
    pub fn to_text(&self, ip: &str) -> (out: String)
        ensures
            out@ == ip@ + "/"@ + crate::text::decimal(self.mask as nat),
    {
        let mut out = String::from_str(ip);
        out.append("/");
        crate::text::push_decimal(&mut out, self.mask as u64);
        out
    }
}

/// No address comes of a prefix length above what the family allows, nor of
/// text without exactly one slash.
pub proof fn lemma_address_bounds(ip: Ip, mask: Seq<char>)
    ensures
        address_value(ip, mask) is Ok ==> address_value(ip, mask)->Ok_0.mask <= ip.max_mask(),
        address_value(ip, mask) is Ok <==> (parsed_decimal(mask, 255) is Some && parsed_decimal(
            mask,
            255,
        )->0 <= ip.max_mask()),
{
}

} // verus!
