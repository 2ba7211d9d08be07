//! Which hosts a host scan is aimed at, as its options say: the block of
//! prefix length 24 around an address, or the addresses of a word list.

use crate::addr::Ipv4;
use crate::discovery::{CandidateSource, SourceView};
use crate::lines::{addresses_of, host_list, words_of};
use crate::option::HostOption;
use crate::sys::{ip_of_text, parse_ip, IpValue, HOST_SCAN_PREFIX};
use vstd::prelude::*;
use vstd::string::StringExecFns;

verus! {

/// Why the options name no hosts to scan.
#[derive(Clone, Copy, Debug, PartialEq, Eq, Structural)]
pub enum TargetError {
    /// The network is given by an IPv6 address.
    NotSupported,
    /// The network is given by text that is no address.
    InvalidAddress,
}

/// What is shown for an error.
pub open spec fn target_error_text(e: TargetError) -> Seq<char> {
    match e {
        TargetError::NotSupported => "Currently not supported."@,
        TargetError::InvalidAddress => "Invalid IP address"@,
    }
}

impl TargetError {
    /// What is shown for the error.
    pub fn message(self) -> (r: String)
        ensures
            r@ == target_error_text(self),
    {
        match self {
            TargetError::NotSupported => String::from_str("Currently not supported."),
            TargetError::InvalidAddress => String::from_str("Invalid IP address"),
        }
    }
}

/// The mathematical content of a source or of the error in its place.
pub open spec fn source_view(r: Result<CandidateSource, TargetError>) -> Result<
    SourceView,
    TargetError,
> {
    match r {
        Ok(source) => Ok(source@),
        Err(e) => Err(e),
    }
}

/// The block that an address read from the options names: the one of prefix
/// length 24 around an IPv4 address.
pub open spec fn block_target(parsed: Option<IpValue>) -> Result<SourceView, TargetError> {
    match parsed {
        Some(IpValue::V4(bits)) => Ok(
            SourceView::Block { base: Ipv4 { bits }, prefix: HOST_SCAN_PREFIX },
        ),
        Some(IpValue::V6(_)) => Err(TargetError::NotSupported),
        None => Err(TargetError::InvalidAddress),
    }
}

/// The hosts that the options name, `word_list` being the text of the word
/// list: the block around the address where the options give a network,
/// else the IPv4 addresses among the lines of the word list where they give
/// one, else none.
pub open spec fn target_of(opt: HostOption, word_list: Seq<char>) -> Result<
    SourceView,
    TargetError,
> {
    if opt.scan_host_addr {
        block_target(ip_of_text(opt.ip_addr@))
    } else if opt.use_wordlist {
        Ok(SourceView::Addresses(addresses_of(words_of(word_list))))
    } else {
        Ok(SourceView::Addresses(Seq::empty()))
    }
}

/// The block that an address read from the options names.
pub fn source_of_address(parsed: Option<IpValue>) -> (r: Result<CandidateSource, TargetError>)
    ensures
        source_view(r) == block_target(parsed),
        r.is_ok() ==> r.unwrap()@.wf(),
{
    match parsed {
        Some(IpValue::V4(bits)) => Ok(
            CandidateSource::Block { base: Ipv4::from_bits(bits), prefix: HOST_SCAN_PREFIX },
        ),
        Some(IpValue::V6(_)) => Err(TargetError::NotSupported),
        None => Err(TargetError::InvalidAddress),
    }
}

/// The hosts that the options of a host scan name. `word_list` is the text
/// of the word list; it is read only where the options give no network.
pub fn host_scan_source(opt: &HostOption, word_list: &str) -> (r: Result<
    CandidateSource,
    TargetError,
>)
    ensures
        source_view(r) == target_of(*opt, word_list@),
        r.is_ok() ==> r.unwrap()@.wf(),
{
    if opt.scan_host_addr {
        source_of_address(parse_ip(opt.ip_addr.as_str()))
    } else if opt.use_wordlist {
        Ok(CandidateSource::Addresses(host_list(word_list)))
    } else {
        Ok(CandidateSource::Addresses(Vec::new()))
    }
}

} // verus!
