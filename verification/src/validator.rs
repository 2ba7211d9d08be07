//! Checks of what the user typed, one per command-line value. Each answers
//! with `Ok` or with the message to show.

use crate::iface::{find_named, first_named, interface_views, NetworkInterface};
use crate::sys::{ip_of_text, parse_ip, IpValue};
use crate::text::{before_first, cut_at, parse_u64, parse_unsigned, string_of, to_chars};
use vstd::prelude::*;
use vstd::string::StringExecFns;

verus! {

/// What a port scan target looks like: text, a colon, and two numbers with
/// a dash between them at the end.
pub const PORT_PATTERN: &'static str = "\\S+:\\d+-\\d+$";

/// What a URI looks like.
pub const URI_PATTERN: &'static str =
    "https?://[\\w!\\?/\\+\\-_~=;\\.,\\*&@#\\$%\\(\\)'\\[\\]]+";

/// What a domain name looks like.
pub const DOMAIN_PATTERN: &'static str = "[\\w\\-._]+\\.[A-Za-z]+";

/// Whether a regular expression matches somewhere in a text, as the `regex`
/// crate decides it; `None` where the crate rejects the expression.
pub uninterp spec fn regex_match(pattern: Seq<char>, text: Seq<char>) -> Option<bool>;

/// Whether `pattern` matches somewhere in `text`.
///
/// Wraps `regex::Regex::new` and `regex::Regex::is_match`. Whether an
/// expression compiles and whether it matches is a matter of the two texts
/// alone; the contract gives the answer a name and says no more of it.
#[verifier::external_body]
pub(crate) fn regex_is_match(pattern: &str, text: &str) -> (r: Option<bool>)
    ensures
        r == regex_match(pattern@, text@),
{
    match regex::Regex::new(pattern) {
        Ok(re) => Some(re.is_match(text)),
        Err(_) => None,
    }
}

/// Whether something exists at `path` right now.
///
/// Wraps `std::path::Path::exists`. The answer depends on what is on disk,
/// so nothing is promised of it.
#[verifier::external_body]
pub(crate) fn path_exists(path: &str) -> (r: bool) {
    std::path::Path::new(path).exists()
}

/// `Ok` where the expression matched, else the message.
pub fn pattern_verdict(matched: Option<bool>, message: &str) -> (r: Result<(), String>)
    ensures
        r.is_ok() <==> matched == Some(true),
        r.is_err() ==> r.unwrap_err()@ == message@,
{
    match matched {
        Some(true) => Ok(()),
        _ => Err(String::from_str(message)),
    }
}

/// The verdict on a port scan target, given whether it has the shape of one
/// and what address stands before its first colon.
pub fn port_verdict(matched: Option<bool>, address: Option<IpValue>) -> (r: Result<(), String>)
    ensures
        r.is_ok() <==> matched == Some(true) && address.is_some(),
        matched != Some(true) ==> r.is_err() && r.unwrap_err()@
            == "Please specify ip address and port number."@,
        matched == Some(true) && address.is_none() ==> r.is_err() && r.unwrap_err()@
            == "Please specify ip address"@,
{
    match matched {
        Some(true) => match address {
            Some(_) => Ok(()),
            None => Err(String::from_str("Please specify ip address")),
        },
        _ => Err(String::from_str("Please specify ip address and port number.")),
    }
}

/// A port scan target is `address:first-last` with an IP address of either
/// family before the first colon.
pub fn validate_port_opt(v: String) -> (r: Result<(), String>)
    ensures
        r.is_ok() <==> regex_match(PORT_PATTERN@, v@) == Some(true) && ip_of_text(
            before_first(v@, ':'),
        ).is_some(),
        regex_match(PORT_PATTERN@, v@) != Some(true) ==> r.is_err() && r.unwrap_err()@
            == "Please specify ip address and port number."@,
        regex_match(PORT_PATTERN@, v@) == Some(true) && ip_of_text(
            before_first(v@, ':'),
        ).is_none() ==> r.is_err() && r.unwrap_err()@ == "Please specify ip address"@,
{
    let matched = regex_is_match(PORT_PATTERN, v.as_str());
    let chars = to_chars(v.as_str());
    let (head, _) = cut_at(&chars, ':');
    let address = parse_ip(string_of(&head).as_str());
    port_verdict(matched, address)
}

/// The verdict on a host scan target, given the address it writes.
pub fn host_verdict(address: Option<IpValue>) -> (r: Result<(), String>)
    ensures
        r.is_ok() <==> address.is_some(),
        r.is_err() ==> r.unwrap_err()@ == "Please specify ip address"@,
{
    match address {
        Some(_) => Ok(()),
        None => Err(String::from_str("Please specify ip address")),
    }
}

/// A host scan target is an IP address of either family.
pub fn validate_host_opt(v: String) -> (r: Result<(), String>)
    ensures
        r.is_ok() <==> ip_of_text(v@).is_some(),
        r.is_err() ==> r.unwrap_err()@ == "Please specify ip address"@,
{
    host_verdict(parse_ip(v.as_str()))
}

/// A URI scan target holds something of the shape of an HTTP URI.
pub fn validate_uri_opt(v: String) -> (r: Result<(), String>)
    ensures
        r.is_ok() <==> regex_match(URI_PATTERN@, v@) == Some(true),
        r.is_err() ==> r.unwrap_err()@ == "Please specify uri"@,
{
    pattern_verdict(regex_is_match(URI_PATTERN, v.as_str()), "Please specify uri")
}

/// A domain scan target holds something of the shape of a domain name.
pub fn validate_domain_opt(v: String) -> (r: Result<(), String>)
    ensures
        r.is_ok() <==> regex_match(DOMAIN_PATTERN@, v@) == Some(true),
        r.is_err() ==> r.unwrap_err()@ == "Please specify domain name"@,
{
    pattern_verdict(regex_is_match(DOMAIN_PATTERN, v.as_str()), "Please specify domain name")
}

/// The message for a file that is not there.
pub open spec fn missing_file_message(path: Seq<char>) -> Seq<char> {
    "File "@ + path + " does not exist"@
}

/// The verdict on a file path, given whether something exists there.
pub fn filepath_verdict(v: &str, exists: bool) -> (r: Result<(), String>)
    ensures
        r.is_ok() <==> exists,
        r.is_err() ==> r.unwrap_err()@ == missing_file_message(v@),
{
    if exists {
        Ok(())
    } else {
        let mut message = String::from_str("File ");
        message.append(v);
        message.append(" does not exist");
        Err(message)
    }
}

/// A file path must lead to something that exists. Whether it does is
/// looked up on disk when the function is called.
pub fn validate_filepath(v: String) -> (r: Result<(), String>)
    ensures
        r.is_err() ==> r.unwrap_err()@ == missing_file_message(v@),
{
    let exists = path_exists(v.as_str());
    filepath_verdict(v.as_str(), exists)
}

/// A timeout is a positive number of milliseconds in decimal notation that
/// fits in 64 bits.
pub fn validate_timeout(v: String) -> (r: Result<(), String>)
    ensures
        r.is_ok() <==> parse_unsigned(v@, u64::MAX as nat).is_some() && parse_unsigned(
            v@,
            u64::MAX as nat,
        ).unwrap() > 0,
        r.is_err() ==> r.unwrap_err()@ == "Invalid timeout value"@,
{
    match parse_u64(v.as_str()) {
        Some(timeout) => {
            if timeout == 0 {
                Err(String::from_str("Invalid timeout value"))
            } else {
                Ok(())
            }
        },
        None => Err(String::from_str("Invalid timeout value")),
    }
}

/// An interface name must be that of one of the machine's interfaces.
pub fn validate_interface(v: String, interfaces: &Vec<NetworkInterface>) -> (r: Result<(), String>)
    ensures
        r.is_ok() <==> first_named(interface_views(interfaces@), v@).is_some(),
        r.is_err() ==> r.unwrap_err()@ == "Invalid network interface name"@,
{
    match find_named(interfaces, &v) {
        Some(_) => Ok(()),
        None => Err(String::from_str("Invalid network interface name")),
    }
}

} // verus!
