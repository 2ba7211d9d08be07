//! What the user asked for, one set of options per kind of scan.

use crate::sys::get_network_address;
use crate::text::{
    after_first, before_first, cut_at, parse_u64, parse_unsigned, parse_unsigned_from, push_char,
    string_of, to_chars,
};
use vstd::prelude::*;
use vstd::string::StringExecFns;

verus! {

/// How long a scan may take unless the user says otherwise, in milliseconds.
pub const DEFAULT_TIMEOUT_MS: u64 = 30000;

/// The port that a port scan sends from unless told otherwise.
pub const DEFAULT_APP_PORT: u16 = 65432;

/// How a port is probed.
#[derive(Clone, Copy, Debug, PartialEq, Eq, Structural)]
pub enum PortScanType {
    SynScan,
    FinScan,
    XmasScan,
    NullScan,
}

/// The options of a port scan.
#[derive(Debug)]
pub struct PortOption {
    pub ip_addr: String,
    pub start_port: u16,
    pub end_port: u16,
    pub app_port: u16,
    pub scan_type: PortScanType,
    pub use_wordlist: bool,
    pub wordlist_path: String,
    pub if_name: String,
    pub timeout_ms: u64,
    pub save_path: String,
}

/// The options of a host scan.
#[derive(Debug)]
pub struct HostOption {
    pub ip_addr: String,
    pub scan_host_addr: bool,
    pub use_wordlist: bool,
    pub wordlist_path: String,
    pub timeout_ms: u64,
    pub save_path: String,
}

/// The options of a URI scan.
#[derive(Debug)]
pub struct UriOption {
    pub base_uri: String,
    pub use_wordlist: bool,
    pub wordlist_path: String,
    pub timeout_ms: u64,
    pub save_path: String,
}

/// The options of a domain scan.
#[derive(Debug)]
pub struct DomainOption {
    pub base_domain: String,
    pub use_wordlist: bool,
    pub wordlist_path: String,
    pub timeout_ms: u64,
    pub save_path: String,
}

/// The address and the two ports that `address:first-last` names: the
/// address is what stands before the first colon, the ports are the first
/// two numbers, up to 65535 each, of the dash-separated piece between the
/// first colon and the next.
pub open spec fn port_option_parts(s: Seq<char>) -> Option<(Seq<char>, u16, u16)> {
    match after_first(s, ':') {
        None => None,
        Some(rest) => {
            let range = before_first(rest, ':');
            match after_first(range, '-') {
                None => None,
                Some(tail) => {
                    let first = parse_unsigned(before_first(range, '-'), 0xffff);
                    let second = parse_unsigned(before_first(tail, '-'), 0xffff);
                    if first.is_some() && second.is_some() {
                        Some(
                            (before_first(s, ':'), first.unwrap() as u16, second.unwrap() as u16),
                        )
                    } else {
                        None
                    }
                },
            }
        },
    }
}

/// The view of an optional triple of address and ports.
pub open spec fn parts_view(p: Option<(String, u16, u16)>) -> Option<(Seq<char>, u16, u16)> {
    match p {
        Some((a, b, c)) => Some((a@, b, c)),
        None => None,
    }
}

/// Reads `address:first-last`.
pub fn parse_port_option(arg_value: &str) -> (r: Option<(String, u16, u16)>)
    ensures
        parts_view(r) == port_option_parts(arg_value@),
{
    let chars = to_chars(arg_value);
    let (addr, rest) = cut_at(&chars, ':');
    match rest {
        None => None,
        Some(rest) => {
            let (range, _) = cut_at(&rest, ':');
            let (first, tail) = cut_at(&range, '-');
            match tail {
                None => None,
                Some(tail) => {
                    let (second, _) = cut_at(&tail, '-');
                    proof {
                        assert(first@.skip(0) =~= first@);
                        assert(second@.skip(0) =~= second@);
                    }
                    let a = parse_unsigned_from(&first, 0, 0xffff);
                    let b = parse_unsigned_from(&second, 0, 0xffff);
                    match (a, b) {
                        (Some(a), Some(b)) => Some((string_of(&addr), a as u16, b as u16)),
                        _ => None,
                    }
                },
            }
        },
    }
}

/// What `set_option` of a URI scan keeps of its argument: the argument
/// itself where it ends in a slash, else the argument and a slash.
pub open spec fn with_trailing_slash(s: Seq<char>) -> Seq<char> {
    if s.len() > 0 && s.last() == '/' {
        s
    } else {
        s.push('/')
    }
}

impl PortOption {
    /// The options of a port scan before any is set.
    pub fn new() -> (r: PortOption)
        ensures
            r.ip_addr@.len() == 0,
            r.start_port == 0,
            r.end_port == 0,
            r.app_port == DEFAULT_APP_PORT,
            r.scan_type == PortScanType::SynScan,
            !r.use_wordlist,
            r.wordlist_path@.len() == 0,
            r.if_name@.len() == 0,
            r.timeout_ms == DEFAULT_TIMEOUT_MS,
            r.save_path@.len() == 0,
    {
        PortOption {
            ip_addr: String::new(),
            start_port: 0,
            end_port: 0,
            app_port: DEFAULT_APP_PORT,
            scan_type: PortScanType::SynScan,
            use_wordlist: false,
            wordlist_path: String::new(),
            if_name: String::new(),
            timeout_ms: DEFAULT_TIMEOUT_MS,
            save_path: String::new(),
        }
    }

    /// Takes the target from `address:first-last`.
    pub fn set_option(&mut self, arg_value: String)
        requires
            port_option_parts(arg_value@).is_some(),
        ensures
            final(self).ip_addr@ == port_option_parts(arg_value@).unwrap().0,
            final(self).start_port == port_option_parts(arg_value@).unwrap().1,
            final(self).end_port == port_option_parts(arg_value@).unwrap().2,
            final(self).app_port == old(self).app_port,
            final(self).scan_type == old(self).scan_type,
            final(self).use_wordlist == old(self).use_wordlist,
            final(self).wordlist_path == old(self).wordlist_path,
            final(self).if_name == old(self).if_name,
            final(self).timeout_ms == old(self).timeout_ms,
            final(self).save_path == old(self).save_path,
    {
        match parse_port_option(arg_value.as_str()) {
            Some((addr, first, last)) => {
                self.ip_addr = addr;
                self.start_port = first;
                self.end_port = last;
            },
            None => {},
        }
    }

    /// Takes the word list, unless the path is empty.
    pub fn set_file_path(&mut self, file_path: String)
        ensures
            file_path@.len() == 0 ==> *final(self) == *old(self),
            file_path@.len() > 0 ==> final(self).use_wordlist && final(self).wordlist_path
                == file_path,
            final(self).ip_addr == old(self).ip_addr,
            final(self).start_port == old(self).start_port,
            final(self).end_port == old(self).end_port,
            final(self).app_port == old(self).app_port,
            final(self).scan_type == old(self).scan_type,
            final(self).if_name == old(self).if_name,
            final(self).timeout_ms == old(self).timeout_ms,
            final(self).save_path == old(self).save_path,
    {
        if !file_path.as_str().is_empty() {
            self.use_wordlist = true;
            self.wordlist_path = file_path;
        }
    }

    /// Takes the interface name, unless it is empty.
    pub fn set_if_name(&mut self, if_name: String)
        ensures
            if_name@.len() == 0 ==> *final(self) == *old(self),
            if_name@.len() > 0 ==> final(self).if_name == if_name,
            final(self).ip_addr == old(self).ip_addr,
            final(self).start_port == old(self).start_port,
            final(self).end_port == old(self).end_port,
            final(self).app_port == old(self).app_port,
            final(self).scan_type == old(self).scan_type,
            final(self).use_wordlist == old(self).use_wordlist,
            final(self).wordlist_path == old(self).wordlist_path,
            final(self).timeout_ms == old(self).timeout_ms,
            final(self).save_path == old(self).save_path,
    {
        if !if_name.as_str().is_empty() {
            self.if_name = if_name;
        }
    }

    /// Takes the timeout from a number of milliseconds in decimal notation.
    pub fn set_timeout(&mut self, ms_str: String)
        requires
            parse_unsigned(ms_str@, u64::MAX as nat).is_some(),
        ensures
            final(self).timeout_ms as nat == parse_unsigned(ms_str@, u64::MAX as nat).unwrap(),
            final(self).ip_addr == old(self).ip_addr,
            final(self).start_port == old(self).start_port,
            final(self).end_port == old(self).end_port,
            final(self).app_port == old(self).app_port,
            final(self).scan_type == old(self).scan_type,
            final(self).use_wordlist == old(self).use_wordlist,
            final(self).wordlist_path == old(self).wordlist_path,
            final(self).if_name == old(self).if_name,
            final(self).save_path == old(self).save_path,
    {
        match parse_u64(ms_str.as_str()) {
            Some(ms) => {
                self.timeout_ms = ms;
            },
            None => {},
        }
    }

    /// Takes the file that the result is to be saved to.
    pub fn set_save_path(&mut self, save_path: String)
        ensures
            final(self).save_path == save_path,
            final(self).ip_addr == old(self).ip_addr,
            final(self).start_port == old(self).start_port,
            final(self).end_port == old(self).end_port,
            final(self).app_port == old(self).app_port,
            final(self).scan_type == old(self).scan_type,
            final(self).use_wordlist == old(self).use_wordlist,
            final(self).wordlist_path == old(self).wordlist_path,
            final(self).if_name == old(self).if_name,
            final(self).timeout_ms == old(self).timeout_ms,
    {
        self.save_path = save_path;
    }
}

impl HostOption {
    /// The options of a host scan before any is set.
    pub fn new() -> (r: HostOption)
        ensures
            r.ip_addr@.len() == 0,
            r.scan_host_addr,
            !r.use_wordlist,
            r.wordlist_path@.len() == 0,
            r.timeout_ms == DEFAULT_TIMEOUT_MS,
            r.save_path@.len() == 0,
    {
        HostOption {
            ip_addr: String::new(),
            scan_host_addr: true,
            use_wordlist: false,
            wordlist_path: String::new(),
            timeout_ms: DEFAULT_TIMEOUT_MS,
            save_path: String::new(),
        }
    }

    /// Takes the network to scan from an address in it: the address of the
    /// block of prefix length 24 that holds it. Text that is no address
    /// changes nothing and comes back as an error.
    pub fn set_option(&mut self, arg_value: String) -> (r: Result<(), String>)
        ensures
            match crate::sys::network_address_of(arg_value@) {
                Some(text) => r.is_ok() && final(self).ip_addr@ == text,
                None => r.is_err() && r.unwrap_err()@ == "Invalid IP Address"@
                    && final(self).ip_addr == old(self).ip_addr,
            },
            final(self).scan_host_addr == old(self).scan_host_addr,
            final(self).use_wordlist == old(self).use_wordlist,
            final(self).wordlist_path == old(self).wordlist_path,
            final(self).timeout_ms == old(self).timeout_ms,
            final(self).save_path == old(self).save_path,
    {
        match get_network_address(arg_value) {
            Ok(text) => {
                self.ip_addr = text;
                Ok(())
            },
            Err(e) => Err(e),
        }
    }

    /// Takes the word list, unless the path is empty; the hosts are then
    /// those of the list and not those of a network.
    pub fn set_file_path(&mut self, file_path: String)
        ensures
            file_path@.len() == 0 ==> *final(self) == *old(self),
            file_path@.len() > 0 ==> !final(self).scan_host_addr && final(self).use_wordlist
                && final(self).wordlist_path == file_path,
            final(self).ip_addr == old(self).ip_addr,
            final(self).timeout_ms == old(self).timeout_ms,
            final(self).save_path == old(self).save_path,
    {
        if !file_path.as_str().is_empty() {
            self.scan_host_addr = false;
            self.use_wordlist = true;
            self.wordlist_path = file_path;
        }
    }

    /// Takes the timeout from a number of milliseconds in decimal notation.
    pub fn set_timeout(&mut self, ms_str: String)
        requires
            parse_unsigned(ms_str@, u64::MAX as nat).is_some(),
        ensures
            final(self).timeout_ms as nat == parse_unsigned(ms_str@, u64::MAX as nat).unwrap(),
            final(self).ip_addr == old(self).ip_addr,
            final(self).scan_host_addr == old(self).scan_host_addr,
            final(self).use_wordlist == old(self).use_wordlist,
            final(self).wordlist_path == old(self).wordlist_path,
            final(self).save_path == old(self).save_path,
    {
        match parse_u64(ms_str.as_str()) {
            Some(ms) => {
                self.timeout_ms = ms;
            },
            None => {},
        }
    }

    /// Takes the file that the result is to be saved to.
    pub fn set_save_path(&mut self, save_path: String)
        ensures
            final(self).save_path == save_path,
            final(self).ip_addr == old(self).ip_addr,
            final(self).scan_host_addr == old(self).scan_host_addr,
            final(self).use_wordlist == old(self).use_wordlist,
            final(self).wordlist_path == old(self).wordlist_path,
            final(self).timeout_ms == old(self).timeout_ms,
    {
        self.save_path = save_path;
    }
}

impl UriOption {
    /// The options of a URI scan before any is set.
    pub fn new() -> (r: UriOption)
        ensures
            r.base_uri@.len() == 0,
            !r.use_wordlist,
            r.wordlist_path@.len() == 0,
            r.timeout_ms == DEFAULT_TIMEOUT_MS,
            r.save_path@.len() == 0,
    {
        UriOption {
            base_uri: String::new(),
            use_wordlist: false,
            wordlist_path: String::new(),
            timeout_ms: DEFAULT_TIMEOUT_MS,
            save_path: String::new(),
        }
    }

    /// Takes the base URI, with a slash added where it does not end in one.
    pub fn set_option(&mut self, arg_value: String)
        ensures
            final(self).base_uri@ == with_trailing_slash(arg_value@),
            final(self).use_wordlist == old(self).use_wordlist,
            final(self).wordlist_path == old(self).wordlist_path,
            final(self).timeout_ms == old(self).timeout_ms,
            final(self).save_path == old(self).save_path,
    {
        let chars = to_chars(arg_value.as_str());
        let n: usize = chars.len();
        if n > 0 && chars[n - 1] == '/' {
            self.base_uri = arg_value;
        } else {
            let mut uri = arg_value;
            push_char(&mut uri, '/');
            self.base_uri = uri;
        }
    }

    /// Takes the word list, unless the path is empty.
    pub fn set_file_path(&mut self, file_path: String)
        ensures
            file_path@.len() == 0 ==> *final(self) == *old(self),
            file_path@.len() > 0 ==> final(self).use_wordlist && final(self).wordlist_path
                == file_path,
            final(self).base_uri == old(self).base_uri,
            final(self).timeout_ms == old(self).timeout_ms,
            final(self).save_path == old(self).save_path,
    {
        if !file_path.as_str().is_empty() {
            self.use_wordlist = true;
            self.wordlist_path = file_path;
        }
    }

    /// Takes the timeout from a number of milliseconds in decimal notation.
    pub fn set_timeout(&mut self, ms_str: String)
        requires
            parse_unsigned(ms_str@, u64::MAX as nat).is_some(),
        ensures
            final(self).timeout_ms as nat == parse_unsigned(ms_str@, u64::MAX as nat).unwrap(),
            final(self).base_uri == old(self).base_uri,
            final(self).use_wordlist == old(self).use_wordlist,
            final(self).wordlist_path == old(self).wordlist_path,
            final(self).save_path == old(self).save_path,
    {
        match parse_u64(ms_str.as_str()) {
            Some(ms) => {
                self.timeout_ms = ms;
            },
            None => {},
        }
    }

    /// Takes the file that the result is to be saved to.
    pub fn set_save_path(&mut self, save_path: String)
        ensures
            final(self).save_path == save_path,
            final(self).base_uri == old(self).base_uri,
            final(self).use_wordlist == old(self).use_wordlist,
            final(self).wordlist_path == old(self).wordlist_path,
            final(self).timeout_ms == old(self).timeout_ms,
    {
        self.save_path = save_path;
    }
}

impl DomainOption {
    /// The options of a domain scan before any is set.
    pub fn new() -> (r: DomainOption)
        ensures
            r.base_domain@.len() == 0,
            !r.use_wordlist,
            r.wordlist_path@.len() == 0,
            r.timeout_ms == DEFAULT_TIMEOUT_MS,
            r.save_path@.len() == 0,
    {
        DomainOption {
            base_domain: String::new(),
            use_wordlist: false,
            wordlist_path: String::new(),
            timeout_ms: DEFAULT_TIMEOUT_MS,
            save_path: String::new(),
        }
    }

    /// Takes the base domain as it is.
    pub fn set_option(&mut self, arg_value: String)
        ensures
            final(self).base_domain == arg_value,
            final(self).use_wordlist == old(self).use_wordlist,
            final(self).wordlist_path == old(self).wordlist_path,
            final(self).timeout_ms == old(self).timeout_ms,
            final(self).save_path == old(self).save_path,
    {
        self.base_domain = arg_value;
    }

    /// Takes the word list, unless the path is empty.
    pub fn set_file_path(&mut self, file_path: String)
        ensures
            file_path@.len() == 0 ==> *final(self) == *old(self),
            file_path@.len() > 0 ==> final(self).use_wordlist && final(self).wordlist_path
                == file_path,
            final(self).base_domain == old(self).base_domain,
            final(self).timeout_ms == old(self).timeout_ms,
            final(self).save_path == old(self).save_path,
    {
        if !file_path.as_str().is_empty() {
            self.use_wordlist = true;
            self.wordlist_path = file_path;
        }
    }

    /// Takes the timeout from a number of milliseconds in decimal notation.
    pub fn set_timeout(&mut self, ms_str: String)
        requires
            parse_unsigned(ms_str@, u64::MAX as nat).is_some(),
        ensures
            final(self).timeout_ms as nat == parse_unsigned(ms_str@, u64::MAX as nat).unwrap(),
            final(self).base_domain == old(self).base_domain,
            final(self).use_wordlist == old(self).use_wordlist,
            final(self).wordlist_path == old(self).wordlist_path,
            final(self).save_path == old(self).save_path,
    {
        match parse_u64(ms_str.as_str()) {
            Some(ms) => {
                self.timeout_ms = ms;
            },
            None => {},
        }
    }

    /// Takes the file that the result is to be saved to.
    pub fn set_save_path(&mut self, save_path: String)
        ensures
            final(self).save_path == save_path,
            final(self).base_domain == old(self).base_domain,
            final(self).use_wordlist == old(self).use_wordlist,
            final(self).wordlist_path == old(self).wordlist_path,
            final(self).timeout_ms == old(self).timeout_ms,
    {
        self.save_path = save_path;
    }
}

/// A caption followed by a value.
pub fn captioned(caption: &str, value: &str) -> (r: String)
    ensures
        r@ == caption@ + value@,
{
    let mut out = String::from_str(caption);
    out.append(value);
    out
}

/// How a kind of port scan is called.
pub open spec fn scan_type_line(scan_type: PortScanType) -> Seq<char> {
    match scan_type {
        PortScanType::SynScan => "    Scan Type: Syn Scan"@,
        PortScanType::FinScan => "    Scan Type: Fin Scan"@,
        PortScanType::XmasScan => "    Scan Type: Xmas Scan"@,
        PortScanType::NullScan => "    Scan Type: Null Scan"@,
    }
}

impl PortOption {
    /// The lines that show the options of a port scan.
    pub open spec fn shown(&self) -> Seq<Seq<char>> {
        seq![
            "Port Scan Options:"@,
            "    IP Address: "@ + self.ip_addr@,
            "    Port Range: "@ + crate::text::dec_text(self.start_port as nat) + seq!['-']
                + crate::text::dec_text(self.end_port as nat),
            scan_type_line(self.scan_type),
        ]
    }

    /// The lines that show the options. Printing them is the caller's part.
    pub fn show_options(&self) -> (lines: Vec<String>)
        ensures
            lines.deep_view() == self.shown(),
    {
        let mut lines: Vec<String> = Vec::new();
        lines.push(String::from_str("Port Scan Options:"));
        lines.push(captioned("    IP Address: ", self.ip_addr.as_str()));
        let mut range = String::from_str("    Port Range: ");
        crate::text::push_dec(&mut range, self.start_port as u64);
        push_char(&mut range, '-');
        crate::text::push_dec(&mut range, self.end_port as u64);
        proof {
            assert(range@ =~= "    Port Range: "@ + crate::text::dec_text(self.start_port as nat)
                + seq!['-'] + crate::text::dec_text(self.end_port as nat));
        }
        lines.push(range);
        lines.push(
            match self.scan_type {
                PortScanType::SynScan => String::from_str("    Scan Type: Syn Scan"),
                PortScanType::FinScan => String::from_str("    Scan Type: Fin Scan"),
                PortScanType::XmasScan => String::from_str("    Scan Type: Xmas Scan"),
                PortScanType::NullScan => String::from_str("    Scan Type: Null Scan"),
            },
        );
        proof {
            assert(lines.deep_view() =~= self.shown());
        }
        lines
    }
}

impl HostOption {
    /// The lines that show the options of a host scan.
    pub open spec fn shown(&self) -> Seq<Seq<char>> {
        seq![
            "Host Scan Options:"@,
            if self.scan_host_addr {
                "    Target Network: "@ + self.ip_addr@
            } else {
                "    Target: Specified in word list "@ + self.wordlist_path@
            },
        ]
    }

    /// The lines that show the options. Printing them is the caller's part.
    pub fn show_options(&self) -> (lines: Vec<String>)
        ensures
            lines.deep_view() == self.shown(),
    {
        let mut lines: Vec<String> = Vec::new();
        lines.push(String::from_str("Host Scan Options:"));
        if self.scan_host_addr {
            lines.push(captioned("    Target Network: ", self.ip_addr.as_str()));
        } else {
            lines.push(
                captioned("    Target: Specified in word list ", self.wordlist_path.as_str()),
            );
        }
        proof {
            assert(lines.deep_view() =~= self.shown());
        }
        lines
    }
}

/// The line that names the word list, where one is used.
pub open spec fn word_list_lines(use_wordlist: bool, path: Seq<char>) -> Seq<Seq<char>> {
    if use_wordlist {
        seq!["    Word list: "@ + path]
    } else {
        Seq::empty()
    }
}

impl UriOption {
    /// The lines that show the options of a URI scan.
    pub open spec fn shown(&self) -> Seq<Seq<char>> {
        seq!["URI Scan Options:"@, "    Base URI: "@ + self.base_uri@] + word_list_lines(
            self.use_wordlist,
            self.wordlist_path@,
        )
    }

    /// The lines that show the options. Printing them is the caller's part.
    pub fn show_options(&self) -> (lines: Vec<String>)
        ensures
            lines.deep_view() == self.shown(),
    {
        let mut lines: Vec<String> = Vec::new();
        lines.push(String::from_str("URI Scan Options:"));
        lines.push(captioned("    Base URI: ", self.base_uri.as_str()));
        if self.use_wordlist {
            lines.push(captioned("    Word list: ", self.wordlist_path.as_str()));
        }
        proof {
            assert(lines.deep_view() =~= self.shown());
        }
        lines
    }
}

impl DomainOption {
    /// The lines that show the options of a domain scan.
    pub open spec fn shown(&self) -> Seq<Seq<char>> {
        seq!["Domain Scan Options:"@, "    Base Domain Name: "@ + self.base_domain@]
            + word_list_lines(self.use_wordlist, self.wordlist_path@)
    }

    /// The lines that show the options. Printing them is the caller's part.
    pub fn show_options(&self) -> (lines: Vec<String>)
        ensures
            lines.deep_view() == self.shown(),
    {
        let mut lines: Vec<String> = Vec::new();
        lines.push(String::from_str("Domain Scan Options:"));
        lines.push(captioned("    Base Domain Name: ", self.base_domain.as_str()));
        if self.use_wordlist {
            lines.push(captioned("    Word list: ", self.wordlist_path.as_str()));
        }
        proof {
            assert(lines.deep_view() =~= self.shown());
        }
        lines
    }
}

} // verus!
