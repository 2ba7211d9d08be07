//! Small helpers shared by the scans: the network that an address belongs
//! to, and the ruled lines of the reports.

use crate::addr::Ipv4;
use crate::block::{block_network, block_network6, network6_of, network_of};
use crate::text::push_char;
use vstd::prelude::*;
use vstd::string::StringExecFns;
use vstd::utf8::encode_utf8;

verus! {

/// Four spaces, the indent of a report line.
pub const SPACE4: &'static str = "    ";

/// The prefix length of the network that a host scan covers.
pub const HOST_SCAN_PREFIX: u8 = 24;

/// What a ruled line is filled with.
#[derive(Clone, Copy, Debug, PartialEq, Eq, Structural)]
pub enum FillStr {
    Hyphen,
    Equal,
}

/// An IP address of either family, as a number.
#[derive(Clone, Copy, Debug, PartialEq, Eq, Structural)]
pub enum IpValue {
    V4(u32),
    V6(u128),
}

/// The address that a text writes, as the standard library's parser of IP
/// addresses reads it; `None` where it rejects the text.
pub uninterp spec fn ip_of_text(text: Seq<char>) -> Option<IpValue>;

/// The notation in which the standard library writes an IPv6 address.
pub uninterp spec fn ipv6_notation(bits: u128) -> Seq<char>;

/// Reads an IP address of either family.
///
/// Wraps `str::parse` to an `IpAddr` of the standard library. What the
/// parser accepts is a matter of the text alone; the contract gives its
/// answer a name and says no more of it. `ipnet::IpNet::new` with a prefix
/// length of 0, which it accepts for both families, and `addr`, which hands
/// back the address it was given, only tell the two families apart; the
/// number is the one that the standard library converts the address to.
#[verifier::external_body]
pub(crate) fn parse_ip(text: &str) -> (r: Option<IpValue>)
    ensures
        r == ip_of_text(text@),
{
    match text.parse().map(|ip| ipnet::IpNet::new(ip, 0)) {
        Ok(Ok(ipnet::IpNet::V4(net))) => Some(IpValue::V4(net.addr().into())),
        Ok(Ok(ipnet::IpNet::V6(net))) => Some(IpValue::V6(net.addr().into())),
        _ => None,
    }
}

/// Writes an IPv6 address.
///
/// Wraps `to_string` of the standard library's `Ipv6Addr`. The notation is
/// a matter of the address alone; the contract gives it a name and says no
/// more of it. `ipnet::Ipv6Net::new` with a prefix length of 128, which it
/// accepts, and `addr`, which hands back the address it was given, only
/// carry the number to the address.
#[verifier::external_body]
pub(crate) fn ipv6_text(bits: u128) -> (r: String)
    ensures
        r@ == ipv6_notation(bits),
{
    match ipnet::Ipv6Net::new(bits.into(), 128) {
        Ok(net) => net.addr().to_string(),
        Err(_) => String::new(),
    }
}

/// The network address, written out, of the block of prefix length 24 that
/// holds the address that `text` writes; nothing where `text` writes none.
pub open spec fn network_address_of(text: Seq<char>) -> Option<Seq<char>> {
    match ip_of_text(text) {
        Some(IpValue::V4(a)) => Some((Ipv4 { bits: network_of(a, HOST_SCAN_PREFIX) }).text()),
        Some(IpValue::V6(a)) => Some(ipv6_notation(network6_of(a, HOST_SCAN_PREFIX))),
        None => None,
    }
}

/// What `get_network_address` returns for an address read from the text:
/// the network address of its block of prefix length 24, written out, or the
/// error for text that is no address.
pub fn network_address_text(parsed: Option<IpValue>) -> (r: Result<String, String>)
    ensures
        match parsed {
            Some(IpValue::V4(a)) => r.is_ok() && r.unwrap()@ == (Ipv4 {
                bits: network_of(a, HOST_SCAN_PREFIX),
            }).text(),
            Some(IpValue::V6(a)) => r.is_ok() && r.unwrap()@ == ipv6_notation(
                network6_of(a, HOST_SCAN_PREFIX),
            ),
            None => r.is_err() && r.unwrap_err()@ == "Invalid IP Address"@,
        },
{
    match parsed {
        Some(IpValue::V4(a)) => {
            let net = Ipv4::from_bits(block_network(a, HOST_SCAN_PREFIX));
            Ok(net.to_text())
        },
        Some(IpValue::V6(a)) => Ok(ipv6_text(block_network6(a, HOST_SCAN_PREFIX))),
        None => Err(String::from_str("Invalid IP Address")),
    }
}

/// The network address of the block of prefix length 24 that holds the
/// address written in `ip_str`, or an error where `ip_str` writes none.
pub fn get_network_address(ip_str: String) -> (r: Result<String, String>)
    ensures
        match network_address_of(ip_str@) {
            Some(text) => r.is_ok() && r.unwrap()@ == text,
            None => r.is_err() && r.unwrap_err()@ == "Invalid IP Address"@,
        },
{
    network_address_text(parse_ip(ip_str.as_str()))
}

/// The character that a fill stands for.
pub open spec fn fill_char(fill_str: FillStr) -> char {
    match fill_str {
        FillStr::Hyphen => '-',
        FillStr::Equal => '=',
    }
}

/// A ruled line with a caption: one fill character, the caption, and fill
/// characters up to 32 bytes in all. A caption of 32 bytes or more stands
/// alone.
pub open spec fn fix32_line(msg: Seq<char>, fill: char) -> Seq<char> {
    if encode_utf8(msg).len() >= 32 {
        msg
    } else {
        seq![fill] + msg + Seq::new((31 - encode_utf8(msg).len()) as nat, |i: int| fill)
    }
}

/// The ruled line with the caption `msg`. Printing it is the caller's part.
pub fn print_fix32(msg: &str, fill_str: FillStr) -> (r: String)
    ensures
        r@ == fix32_line(msg@, fill_char(fill_str)),
{
    let n: usize = msg.as_bytes().len();
    if n >= 32 {
        return String::from_str(msg);
    }
    let fill: char = match fill_str {
        FillStr::Hyphen => '-',
        FillStr::Equal => '=',
    };
    let mut out = String::new();
    push_char(&mut out, fill);
    out.append(msg);
    let ghost head = out@;
    proof {
        assert(head =~= seq![fill] + msg@);
        assert(out@ =~= head + Seq::new(0, |k: int| fill));
        assert(n == encode_utf8(msg@).len());
    }
    let mut i: usize = 0;
    while i < 31 - n
        invariant
            n < 32,
            i <= 31 - n,
            head == seq![fill] + msg@,
            out@ == head + Seq::new(i as nat, |k: int| fill),
        decreases 31 - n - i,
    {
        push_char(&mut out, fill);
        proof {
            assert(out@ =~= head + Seq::new((i + 1) as nat, |k: int| fill));
        }
        i = i + 1;
    }
    out
}

} // verus!
