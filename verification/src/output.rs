//! What a finished scan is written out as: the lines shown and the text of
//! a saved result. Showing and saving are the caller's part.

use crate::db::{Oui, Service};
use crate::option::{DomainOption, HostOption, PortOption, UriOption};
use crate::addr::Ipv4;
use crate::report::{DiscoveryReport, HostRecord, HostRecordView};
use crate::sys::SPACE4;
use crate::text::{
    byte_len, byte_length, dec_text, push_char, push_dec, push_repeated, repeated,
};
use vstd::prelude::*;
use vstd::string::StringExecFns;

verus! {

/// How a scan ended.
#[derive(Clone, Copy, Debug, PartialEq, Eq, Structural)]
pub enum ScanStatus {
    Done,
    Timeout,
    Error,
}

/// The word shown for the way a scan ended.
pub open spec fn status_word(status: ScanStatus) -> Seq<char> {
    match status {
        ScanStatus::Done => "Done"@,
        ScanStatus::Timeout => "Timed out"@,
        ScanStatus::Error => "Error"@,
    }
}

/// The word shown for the way a scan ended.
pub fn scan_status_label(status: ScanStatus) -> (r: String)
    ensures
        r@ == status_word(status),
{
    match status {
        ScanStatus::Done => String::from_str("Done"),
        ScanStatus::Timeout => String::from_str("Timed out"),
        ScanStatus::Error => String::from_str("Error"),
    }
}

/// How the answer to a request is shown, by the first digit of its status.
#[derive(Clone, Copy, Debug, PartialEq, Eq, Structural)]
pub enum ResponseClass {
    /// The status begins with 2.
    Success,
    /// The status begins with 4 or 5.
    Failure,
    /// Any other status.
    Other,
}

/// The class of a status text.
pub open spec fn class_of(status: Seq<char>) -> ResponseClass {
    if status.len() > 0 && status[0] == '2' {
        ResponseClass::Success
    } else if status.len() > 0 && (status[0] == '4' || status[0] == '5') {
        ResponseClass::Failure
    } else {
        ResponseClass::Other
    }
}

/// The class of a status text.
pub fn response_class(status: &str) -> (r: ResponseClass)
    ensures
        r == class_of(status@),
{
    if status.unicode_len() == 0 {
        return ResponseClass::Other;
    }
    let first: char = status.get_char(0);
    if first == '2' {
        ResponseClass::Success
    } else if first == '4' || first == '5' {
        ResponseClass::Failure
    } else {
        ResponseClass::Other
    }
}

/// The row of a saved host scan for one host: address, hardware address
/// and vendor where the vendor is known, else the address and "Unknown".
pub open spec fn host_row(r: HostRecordView) -> Seq<char> {
    match r.vendor_name {
        Some(name) => seq!['\n'] + r.ip_address.text() + seq![','] + r.mac_address.text() + seq![
            ',',
        ] + name,
        None => seq!['\n'] + r.ip_address.text() + ",Unknown"@,
    }
}

/// The rows of a saved host scan, one after the other.
pub open spec fn host_rows(records: Seq<HostRecordView>) -> Seq<char>
    decreases records.len(),
{
    if records.len() == 0 {
        Seq::empty()
    } else {
        host_rows(records.drop_last()) + host_row(records.last())
    }
}

/// The text of a saved host scan.
pub open spec fn host_result_text(network: Seq<char>, records: Seq<HostRecordView>) -> Seq<
    char,
> {
    "[OPTIONS]\nNETWORK: "@ + network + "\n[RESULTS]"@ + host_rows(records) + seq!['\n']
}

/// The text that a host scan is saved as: the network scanned, then one row
/// per host in the order of the report.
pub fn save_host_result(opt: &HostOption, report: &DiscoveryReport) -> (data: String)
    ensures
        data@ == host_result_text(opt.ip_addr@, report@),
{
    let mut data = String::from_str("[OPTIONS]\nNETWORK: ");
    data.append(opt.ip_addr.as_str());
    data.append("\n[RESULTS]");
    let ghost head = data@;
    let n: usize = report.len();
    let mut i: usize = 0;
    while i < n
        invariant
            i <= n,
            n == report@.len(),
            data@ == head + host_rows(report@.take(i as int)),
        decreases n - i,
    {
        let record = report.get(i);
        let ghost before = data@;
        push_char(&mut data, '\n');
        data.append(record.ip_address.to_text().as_str());
        match &record.vendor_name {
            Some(name) => {
                push_char(&mut data, ',');
                data.append(record.mac_address.to_text().as_str());
                push_char(&mut data, ',');
                data.append(name.as_str());
            },
            None => {
                data.append(",Unknown");
            },
        }
        proof {
            let longer = report@.take(i + 1);
            assert(longer.drop_last() =~= report@.take(i as int));
            assert(longer.last() == report@[i as int]);
            assert(data@ =~= before + host_row(report@[i as int]));
            assert(data@ =~= head + host_rows(longer));
        }
        i = i + 1;
    }
    push_char(&mut data, '\n');
    proof {
        assert(report@.take(n as int) =~= report@);
        assert(head =~= "[OPTIONS]\nNETWORK: "@ + opt.ip_addr@ + "\n[RESULTS]"@);
        assert(data@ =~= host_result_text(opt.ip_addr@, report@));
    }
    data
}

/// The row of a saved URI scan for one answer.
pub open spec fn uri_row(r: (Seq<char>, Seq<char>)) -> Seq<char> {
    seq!['\n'] + r.0 + seq![','] + r.1
}

/// The rows of a saved URI scan, one after the other.
pub open spec fn uri_rows(responses: Seq<(Seq<char>, Seq<char>)>) -> Seq<char>
    decreases responses.len(),
{
    if responses.len() == 0 {
        Seq::empty()
    } else {
        uri_rows(responses.drop_last()) + uri_row(responses.last())
    }
}

/// The text of a saved URI scan.
pub open spec fn uri_result_text(
    base_uri: Seq<char>,
    word_list: Seq<char>,
    responses: Seq<(Seq<char>, Seq<char>)>,
) -> Seq<char> {
    "[OPTIONS]\nBASE_URI: "@ + base_uri + "\nWORD_LIST: "@ + word_list + "\n[RESULTS]"@
        + uri_rows(responses) + seq!['\n']
}

/// The text that a URI scan is saved as: the base URI and the word list,
/// then one row per answer, URI and status, in the order given.
pub fn save_uri_result(opt: &UriOption, responses: &Vec<(String, String)>) -> (data: String)
    ensures
        data@ == uri_result_text(opt.base_uri@, opt.wordlist_path@, responses.deep_view()),
{
    let mut data = String::from_str("[OPTIONS]\nBASE_URI: ");
    data.append(opt.base_uri.as_str());
    data.append("\nWORD_LIST: ");
    data.append(opt.wordlist_path.as_str());
    data.append("\n[RESULTS]");
    let ghost head = data@;
    let ghost rows = responses.deep_view();
    let n: usize = responses.len();
    let mut i: usize = 0;
    while i < n
        invariant
            i <= n,
            n == responses@.len(),
            rows == responses.deep_view(),
            data@ == head + uri_rows(rows.take(i as int)),
        decreases n - i,
    {
        let ghost before = data@;
        push_char(&mut data, '\n');
        data.append(responses[i].0.as_str());
        push_char(&mut data, ',');
        data.append(responses[i].1.as_str());
        proof {
            let longer = rows.take(i + 1);
            assert(longer.drop_last() =~= rows.take(i as int));
            assert(longer.last() == rows[i as int]);
            assert(rows[i as int] == (responses@[i as int].0@, responses@[i as int].1@));
            assert(data@ =~= before + uri_row(rows[i as int]));
            assert(data@ =~= head + uri_rows(longer));
        }
        i = i + 1;
    }
    push_char(&mut data, '\n');
    proof {
        assert(rows.take(n as int) =~= rows);
        assert(data@ =~= uri_result_text(opt.base_uri@, opt.wordlist_path@, rows));
    }
    data
}

/// What a port scan found on one open port: the port as text, and the
/// service that the table names for it, if it names one.
#[derive(Debug)]
pub struct PortFinding {
    pub port: String,
    pub service: Option<Service>,
}

/// The row of a saved port scan for one open port.
pub open spec fn port_row(f: PortFinding) -> Seq<char> {
    match f.service {
        Some(s) => seq!['\n'] + s.port_number@ + seq![','] + s.protocol@ + seq![',']
            + s.service_name@ + seq![','] + s.description@,
        None => seq!['\n'] + f.port@ + ",Unknown service"@,
    }
}

/// The rows of a saved port scan, one after the other.
pub open spec fn port_rows(findings: Seq<PortFinding>) -> Seq<char>
    decreases findings.len(),
{
    if findings.len() == 0 {
        Seq::empty()
    } else {
        port_rows(findings.drop_last()) + port_row(findings.last())
    }
}

/// The text of a saved port scan.
pub open spec fn port_result_text(
    ip_addr: Seq<char>,
    start_port: u16,
    end_port: u16,
    findings: Seq<PortFinding>,
) -> Seq<char> {
    "[OPTIONS]\nIP_ADDR:"@ + ip_addr + "\nSTART_PORT:"@ + dec_text(start_port as nat)
        + "\nEND_PORT:"@ + dec_text(end_port as nat) + "\n[RESULTS]"@ + port_rows(findings)
        + seq!['\n']
}

/// The text that a port scan is saved as: the target and the range, then one
/// row per open port in the order given.
pub fn save_port_result(opt: &PortOption, findings: &Vec<PortFinding>) -> (data: String)
    ensures
        data@ == port_result_text(opt.ip_addr@, opt.start_port, opt.end_port, findings@),
{
    let mut data = String::from_str("[OPTIONS]\nIP_ADDR:");
    data.append(opt.ip_addr.as_str());
    data.append("\nSTART_PORT:");
    push_dec(&mut data, opt.start_port as u64);
    data.append("\nEND_PORT:");
    push_dec(&mut data, opt.end_port as u64);
    data.append("\n[RESULTS]");
    let ghost head = data@;
    let n: usize = findings.len();
    let mut i: usize = 0;
    while i < n
        invariant
            i <= n,
            n == findings@.len(),
            data@ == head + port_rows(findings@.take(i as int)),
        decreases n - i,
    {
        let ghost before = data@;
        push_char(&mut data, '\n');
        match &findings[i].service {
            Some(s) => {
                data.append(s.port_number.as_str());
                push_char(&mut data, ',');
                data.append(s.protocol.as_str());
                push_char(&mut data, ',');
                data.append(s.service_name.as_str());
                push_char(&mut data, ',');
                data.append(s.description.as_str());
            },
            None => {
                data.append(findings[i].port.as_str());
                data.append(",Unknown service");
            },
        }
        proof {
            let longer = findings@.take(i + 1);
            assert(longer.drop_last() =~= findings@.take(i as int));
            assert(longer.last() == findings@[i as int]);
            assert(data@ =~= before + port_row(findings@[i as int]));
            assert(data@ =~= head + port_rows(longer));
        }
        i = i + 1;
    }
    push_char(&mut data, '\n');
    proof {
        assert(findings@.take(n as int) =~= findings@);
        assert(data@ =~= port_result_text(
            opt.ip_addr@,
            opt.start_port,
            opt.end_port,
            findings@,
        ));
    }
    data
}

/// The addresses of a name, each with a comma before it.
pub open spec fn comma_joined(ips: Seq<Seq<char>>) -> Seq<char>
    decreases ips.len(),
{
    if ips.len() == 0 {
        Seq::empty()
    } else {
        comma_joined(ips.drop_last()) + seq![','] + ips.last()
    }
}

/// The row of a saved domain scan for one name and its addresses.
pub open spec fn domain_row(r: (Seq<char>, Seq<Seq<char>>)) -> Seq<char> {
    seq!['\n'] + r.0 + comma_joined(r.1)
}

/// The rows of a saved domain scan, one after the other.
pub open spec fn domain_rows(found: Seq<(Seq<char>, Seq<Seq<char>>)>) -> Seq<char>
    decreases found.len(),
{
    if found.len() == 0 {
        Seq::empty()
    } else {
        domain_rows(found.drop_last()) + domain_row(found.last())
    }
}

/// The text of a saved domain scan.
pub open spec fn domain_result_text(
    base_domain: Seq<char>,
    word_list: Seq<char>,
    base_addresses: Option<Seq<Seq<char>>>,
    found: Seq<(Seq<char>, Seq<Seq<char>>)>,
) -> Seq<char> {
    "[OPTIONS]\nBASE_DOMAIN: "@ + base_domain + "\nWORD_LIST: "@ + word_list + "\n[RESULTS]"@ + (
    match base_addresses {
        Some(ips) => domain_row((base_domain, ips)),
        None => Seq::empty(),
    }) + domain_rows(found) + seq!['\n']
}

fn push_comma_joined(data: &mut String, ips: &Vec<String>)
    ensures
        final(data)@ == old(data)@ + comma_joined(ips.deep_view()),
{
    let ghost all = ips.deep_view();
    let n: usize = ips.len();
    let mut i: usize = 0;
    proof {
        assert(data@ =~= old(data)@ + comma_joined(all.take(0)));
    }
    while i < n
        invariant
            i <= n,
            n == ips@.len(),
            all == ips.deep_view(),
            data@ == old(data)@ + comma_joined(all.take(i as int)),
        decreases n - i,
    {
        let ghost before = data@;
        push_char(data, ',');
        data.append(ips[i].as_str());
        proof {
            let longer = all.take(i + 1);
            assert(longer.drop_last() =~= all.take(i as int));
            assert(longer.last() == ips@[i as int]@);
            assert(data@ =~= before + seq![','] + ips@[i as int]@);
            assert(data@ =~= old(data)@ + comma_joined(longer));
        }
        i = i + 1;
    }
    proof {
        assert(all.take(n as int) =~= all);
    }
}

/// The text that a domain scan is saved as: the base domain and the word
/// list; the base domain with its addresses where looking it up gave any;
/// then one row per name found, with its addresses, in the order given.
pub fn save_domain_result(
    opt: &DomainOption,
    base_addresses: &Option<Vec<String>>,
    found: &Vec<(String, Vec<String>)>,
) -> (data: String)
    ensures
        data@ == domain_result_text(
            opt.base_domain@,
            opt.wordlist_path@,
            base_addresses.deep_view(),
            found.deep_view(),
        ),
{
    let mut data = String::from_str("[OPTIONS]\nBASE_DOMAIN: ");
    data.append(opt.base_domain.as_str());
    data.append("\nWORD_LIST: ");
    data.append(opt.wordlist_path.as_str());
    data.append("\n[RESULTS]");
    match base_addresses {
        Some(ips) => {
            push_char(&mut data, '\n');
            data.append(opt.base_domain.as_str());
            push_comma_joined(&mut data, ips);
        },
        None => {},
    }
    let ghost head = data@;
    let ghost rows = found.deep_view();
    let n: usize = found.len();
    let mut i: usize = 0;
    proof {
        assert(data@ =~= head + domain_rows(rows.take(0)));
    }
    while i < n
        invariant
            i <= n,
            n == found@.len(),
            rows == found.deep_view(),
            data@ == head + domain_rows(rows.take(i as int)),
        decreases n - i,
    {
        let ghost before = data@;
        push_char(&mut data, '\n');
        data.append(found[i].0.as_str());
        push_comma_joined(&mut data, &found[i].1);
        proof {
            let longer = rows.take(i + 1);
            assert(longer.drop_last() =~= rows.take(i as int));
            assert(longer.last() == rows[i as int]);
            assert(rows[i as int] == (found@[i as int].0@, found@[i as int].1.deep_view()));
            assert(data@ =~= before + domain_row(rows[i as int]));
            assert(data@ =~= head + domain_rows(longer));
        }
        i = i + 1;
    }
    push_char(&mut data, '\n');
    proof {
        assert(rows.take(n as int) =~= rows);
        assert(data@ =~= domain_result_text(
            opt.base_domain@,
            opt.wordlist_path@,
            base_addresses.deep_view(),
            rows,
        ));
    }
    data
}

/// The line of one service: the port right-aligned in eight columns, an
/// indent, and the name of the service.
pub open spec fn service_line(port_number: Seq<char>, service_name: Seq<char>) -> Seq<char> {
    repeated(' ', (8 - byte_len(port_number)) as nat) + port_number + SPACE4@ + service_name
}

/// The line shown for one service of a port scan. Printing it is the
/// caller's part.
pub fn print_service(service: &Service) -> (line: String)
    requires
        byte_len(service.port_number@) <= 8,
    ensures
        line@ == service_line(service.port_number@, service.service_name@),
{
    let mut line = String::new();
    push_repeated(&mut line, ' ', 8 - byte_length(service.port_number.as_str()));
    line.append(service.port_number.as_str());
    line.append(SPACE4);
    line.append(service.service_name.as_str());
    proof {
        assert(line@ =~= service_line(service.port_number@, service.service_name@));
    }
    line
}

/// The hardware address prefix under which the vendor table keeps hosts
/// that it does not know.
pub const UNKNOWN_PREFIX: &'static str = "00:00:00";

/// The line of one host with its vendor entry: an indent, the address
/// padded to sixteen columns, an indent, the hardware address, and then
/// " Unknown" for the entry of unknown hosts, else the vendor's detailed
/// name as the table has it.
pub open spec fn host_info_line(ip_addr: Seq<char>, mac_addr: Seq<char>, oui: Oui) -> Seq<char> {
    SPACE4@ + ip_addr + repeated(' ', (16 - byte_len(ip_addr)) as nat) + SPACE4@ + mac_addr + (
    if oui.mac_prefix@ == UNKNOWN_PREFIX@ {
        " Unknown"@
    } else {
        oui.vendor_name_detail@
    })
}

/// The line shown for one host of a host scan. Printing it is the caller's
/// part.
pub fn print_host_info(ip_addr: String, mac_addr: String, oui: Oui) -> (line: String)
    requires
        byte_len(ip_addr@) <= 16,
    ensures
        line@ == host_info_line(ip_addr@, mac_addr@, oui),
{
    let mut line = String::from_str(SPACE4);
    line.append(ip_addr.as_str());
    push_repeated(&mut line, ' ', 16 - byte_length(ip_addr.as_str()));
    line.append(SPACE4);
    line.append(mac_addr.as_str());
    let unknown = String::from_str(UNKNOWN_PREFIX);
    if oui.mac_prefix == unknown {
        line.append(" Unknown");
    } else {
        line.append(oui.vendor_name_detail.as_str());
    }
    proof {
        assert(line@ =~= host_info_line(ip_addr@, mac_addr@, oui));
    }
    line
}

/// How many spaces fill a text up to `width` columns; none where it is
/// wider.
pub open spec fn padding(text: Seq<char>, width: nat) -> nat {
    if byte_len(text) <= width {
        (width - byte_len(text)) as nat
    } else {
        0
    }
}

/// The line of one host of a report in the table of a host scan: an indent,
/// the address padded to sixteen columns, an indent, the hardware address,
/// a space, and the vendor or "Own device" or "Unknown".
pub open spec fn host_record_line(r: HostRecordView, own_ip: Option<Ipv4>) -> Seq<char> {
    SPACE4@ + r.ip_address.text() + repeated(' ', padding(r.ip_address.text(), 16)) + SPACE4@
        + r.mac_address.text() + seq![' '] + r.label(own_ip)
}

/// The line shown for one host of a report. Printing it is the caller's
/// part.
pub fn print_host_record(record: &HostRecord, own_ip: Option<Ipv4>) -> (line: String)
    ensures
        line@ == host_record_line(record@, own_ip),
{
    let ip = record.ip_address.to_text();
    let width: usize = byte_length(ip.as_str());
    let mut line = String::from_str(SPACE4);
    line.append(ip.as_str());
    if width <= 16 {
        push_repeated(&mut line, ' ', 16 - width);
    }
    line.append(SPACE4);
    let mac = record.mac_address.to_text();
    line.append(mac.as_str());
    push_char(&mut line, ' ');
    let label = record.label(own_ip);
    line.append(label.as_str());
    proof {
        assert(repeated(' ', 0) =~= Seq::<char>::empty());
        assert(line@ =~= host_record_line(record@, own_ip));
    }
    line
}

} // verus!
