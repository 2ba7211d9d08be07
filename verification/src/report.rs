//! The result of a discovery run: one record per live host in ascending
//! address order, and how the records are written out.

use crate::addr::{lemma_text_names_one_address, Ipv4, MacAddr};
use crate::arp::ArpBinding;
use crate::text::{clone_optional, dec_text, push_char, push_dec};
use vstd::prelude::*;
use vstd::string::StringExecFns;

verus! {

/// What a vendor database knows of a hardware address.
#[derive(Debug)]
pub struct VendorInfo {
    pub short_name: String,
    pub detailed_name: Option<String>,
}

/// The mathematical content of a `VendorInfo`.
pub struct VendorInfoView {
    pub short_name: Seq<char>,
    pub detailed_name: Option<Seq<char>>,
}

impl View for VendorInfo {
    type V = VendorInfoView;

    open spec fn view(&self) -> VendorInfoView {
        VendorInfoView {
            short_name: self.short_name@,
            detailed_name: match self.detailed_name {
                Some(n) => Some(n@),
                None => None,
            },
        }
    }
}

/// The vendor name that a report shows for the answer of a lookup: the
/// detailed name where the database has the address and a detailed name for
/// it.
pub open spec fn vendor_name_of(answer: Option<VendorInfoView>) -> Option<Seq<char>> {
    match answer {
        Some(info) => info.detailed_name,
        None => None,
    }
}

/// One live host as the report shows it.
#[derive(Debug)]
pub struct HostRecord {
    pub ip_address: Ipv4,
    /// All zero where the hardware address was not resolved.
    pub mac_address: MacAddr,
    pub resolved: bool,
    pub vendor_name: Option<String>,
}

/// The mathematical content of a `HostRecord`.
pub struct HostRecordView {
    pub ip_address: Ipv4,
    pub mac_address: MacAddr,
    pub resolved: bool,
    pub vendor_name: Option<Seq<char>>,
}

impl View for HostRecord {
    type V = HostRecordView;

    open spec fn view(&self) -> HostRecordView {
        HostRecordView {
            ip_address: self.ip_address,
            mac_address: self.mac_address,
            resolved: self.resolved,
            vendor_name: match self.vendor_name {
                Some(n) => Some(n@),
                None => None,
            },
        }
    }
}

impl HostRecordView {
    /// An unresolved host has the zero hardware address and no vendor.
    pub open spec fn wf(self) -> bool {
        !self.resolved ==> self.mac_address == MacAddr::spec_zero() && self.vendor_name.is_none()
    }

    /// What the line of this host ends with: the vendor where one is known,
    /// else "Own device" for the scanning interface's own address and
    /// "Unknown" for any other.
    pub open spec fn label(self, own_ip: Option<Ipv4>) -> Seq<char> {
        match self.vendor_name {
            Some(name) => name,
            None => if own_ip == Some(self.ip_address) {
                "Own device"@
            } else {
                "Unknown"@
            },
        }
    }

    /// The line of this host: address, hardware address and label with one
    /// space between them.
    pub open spec fn line(self, own_ip: Option<Ipv4>) -> Seq<char> {
        self.ip_address.text() + seq![' '] + self.mac_address.text() + seq![' '] + self.label(
            own_ip,
        )
    }
}

/// The record that a binding and the vendor name found for it make.
pub open spec fn record_of(binding: ArpBinding, vendor_name: Option<Seq<char>>) -> HostRecordView {
    HostRecordView {
        ip_address: binding.ip_address,
        mac_address: binding.mac_address,
        resolved: binding.resolved,
        vendor_name,
    }
}

/// The records that bindings and vendor names make, pair by pair.
pub open spec fn records_of(bindings: Seq<ArpBinding>, vendors: Seq<Option<Seq<char>>>) -> Seq<
    HostRecordView,
> {
    Seq::new(bindings.len(), |i: int| record_of(bindings[i], vendors[i]))
}

/// Whether the records are in ascending order of address, none twice.
pub open spec fn ascending_records(records: Seq<HostRecordView>) -> bool {
    forall|i: int, j: int|
        0 <= i < j < records.len() ==> records[i].ip_address.bits < records[j].ip_address.bits
}

/// The line that says how many hosts are up.
pub open spec fn summary_line(count: nat) -> Seq<char> {
    dec_text(count) + " host online"@
}

/// What the machine-readable form of a report says of one host.
#[derive(Debug)]
pub struct HostEntry {
    /// The hardware address in colon-separated hexadecimal notation; all
    /// zero where it was not resolved.
    pub mac: String,
    pub vendor: Option<String>,
}

/// The mathematical content of a `HostEntry`.
pub struct HostEntryView {
    pub mac: Seq<char>,
    pub vendor: Option<Seq<char>>,
}

impl View for HostEntry {
    type V = HostEntryView;

    open spec fn view(&self) -> HostEntryView {
        HostEntryView {
            mac: self.mac@,
            vendor: match self.vendor {
                Some(n) => Some(n@),
                None => None,
            },
        }
    }
}

/// The key under which the machine-readable form holds a host: its address
/// in dotted-decimal notation.
pub open spec fn key_of(r: HostRecordView) -> Seq<char> {
    r.ip_address.text()
}

/// What the machine-readable form holds for a host.
pub open spec fn entry_of(r: HostRecordView) -> HostEntryView {
    HostEntryView { mac: r.mac_address.text(), vendor: r.vendor_name }
}

/// In the machine-readable form of records in ascending order no key
/// stands twice, so that it is a mapping from keys to entries.
pub proof fn lemma_keys_are_distinct(records: Seq<HostRecordView>)
    requires
        ascending_records(records),
    ensures
        forall|i: int, j: int|
            0 <= i < j < records.len() ==> key_of(records[i]) != key_of(records[j]),
{
    assert forall|i: int, j: int| 0 <= i < j < records.len() implies key_of(records[i]) != key_of(
        records[j],
    ) by {
        if key_of(records[i]) == key_of(records[j]) {
            lemma_text_names_one_address(records[i].ip_address, records[j].ip_address);
            assert(records[i].ip_address.bits < records[j].ip_address.bits);
        }
    }
}

/// The final list of live hosts, in ascending order of address.
#[derive(Debug)]
pub struct DiscoveryReport {
    records: Vec<HostRecord>,
}

impl View for DiscoveryReport {
    type V = Seq<HostRecordView>;

    closed spec fn view(&self) -> Seq<HostRecordView> {
        self.records@.map_values(|r: HostRecord| r@)
    }
}

impl HostRecord {
    /// A copy of the record.
    pub fn duplicate(&self) -> (r: HostRecord)
        ensures
            r@ == self@,
    {
        HostRecord {
            ip_address: self.ip_address,
            mac_address: self.mac_address,
            resolved: self.resolved,
            vendor_name: clone_optional(&self.vendor_name),
        }
    }

    /// What the line of this host ends with: the vendor or "Own device" or
    /// "Unknown".
    pub fn label(&self, own_ip: Option<Ipv4>) -> (r: String)
        ensures
            r@ == self@.label(own_ip),
    {
        match &self.vendor_name {
            Some(name) => name.clone(),
            None => {
                let own: bool = match own_ip {
                    Some(ip) => ip == self.ip_address,
                    None => false,
                };
                if own {
                    String::from_str("Own device")
                } else {
                    String::from_str("Unknown")
                }
            },
        }
    }

    /// The line of this host: address, hardware address, and the vendor or
    /// "Own device" or "Unknown".
    pub fn render(&self, own_ip: Option<Ipv4>) -> (r: String)
        ensures
            r@ == self@.line(own_ip),
    {
        let mut out = self.ip_address.to_text();
        push_char(&mut out, ' ');
        let mac = self.mac_address.to_text();
        out.append(mac.as_str());
        push_char(&mut out, ' ');
        let label = self.label(own_ip);
        out.append(label.as_str());
        proof {
            assert(out@ =~= self@.line(own_ip));
        }
        out
    }
}

impl DiscoveryReport {
    /// Ascending order of address, and every record well-formed.
    pub open spec fn wf(&self) -> bool {
        &&& ascending_records(self@)
        &&& forall|i: int| 0 <= i < self@.len() ==> (#[trigger] self@[i]).wf()
    }

    /// The report of the hosts with the given bindings and vendor names,
    /// pair by pair.
    pub fn assemble(bindings: &Vec<ArpBinding>, vendors: &Vec<Option<String>>) -> (r:
        DiscoveryReport)
        requires
            bindings@.len() == vendors@.len(),
        ensures
            r@ == records_of(bindings@, vendors.deep_view()),
    {
        let n: usize = bindings.len();
        let mut records: Vec<HostRecord> = Vec::new();
        let mut i: usize = 0;
        while i < n
            invariant
                i <= n,
                n == bindings@.len(),
                n == vendors@.len(),
                records@.len() == i,
                forall|k: int|
                    0 <= k < i ==> (#[trigger] records@[k])@ == record_of(
                        bindings@[k],
                        vendors.deep_view()[k],
                    ),
            decreases n - i,
        {
            let b: ArpBinding = bindings[i];
            let rec = HostRecord {
                ip_address: b.ip_address,
                mac_address: b.mac_address,
                resolved: b.resolved,
                vendor_name: clone_optional(&vendors[i]),
            };
            proof {
                assert(vendors.deep_view()[i as int] == vendors@[i as int].deep_view());
                assert(rec@ == record_of(bindings@[i as int], vendors.deep_view()[i as int]));
            }
            records.push(rec);
            i = i + 1;
        }
        let r = DiscoveryReport { records };
        proof {
            assert(r@ =~= records_of(bindings@, vendors.deep_view()));
        }
        r
    }

    /// How many hosts are up.
    pub fn len(&self) -> (n: usize)
        ensures
            n == self@.len(),
    {
        self.records.len()
    }

    /// The record at position `i` in ascending order of address.
    pub fn get(&self, i: usize) -> (r: &HostRecord)
        requires
            i < self@.len(),
        ensures
            r@ == self@[i as int],
    {
        &self.records[i]
    }

    /// The lines of the report, one per host in ascending order of address.
    pub fn render(&self, own_ip: Option<Ipv4>) -> (lines: Vec<String>)
        ensures
            lines@.len() == self@.len(),
            forall|i: int|
                0 <= i < self@.len() ==> (#[trigger] lines@[i])@ == self@[i].line(own_ip),
    {
        let n: usize = self.records.len();
        let mut lines: Vec<String> = Vec::new();
        let mut i: usize = 0;
        while i < n
            invariant
                i <= n,
                n == self.records@.len(),
                lines@.len() == i,
                forall|k: int|
                    0 <= k < i ==> (#[trigger] lines@[k])@ == self.records@[k]@.line(own_ip),
            decreases n - i,
        {
            let line = self.records[i].render(own_ip);
            lines.push(line);
            i = i + 1;
        }
        lines
    }

    /// The machine-readable form of the report: one pair per host, in
    /// ascending order of address, of the key and what is held under it.
    pub fn entries(&self) -> (pairs: Vec<(String, HostEntry)>)
        ensures
            pairs@.len() == self@.len(),
            forall|i: int|
                0 <= i < self@.len() ==> (#[trigger] pairs@[i]).0@ == key_of(self@[i])
                    && pairs@[i].1@ == entry_of(self@[i]),
    {
        let n: usize = self.records.len();
        let mut pairs: Vec<(String, HostEntry)> = Vec::new();
        let mut i: usize = 0;
        while i < n
            invariant
                i <= n,
                n == self.records@.len(),
                pairs@.len() == i,
                forall|k: int|
                    0 <= k < i ==> (#[trigger] pairs@[k]).0@ == key_of(self.records@[k]@)
                        && pairs@[k].1@ == entry_of(self.records@[k]@),
            decreases n - i,
        {
            let record = &self.records[i];
            let entry = HostEntry {
                mac: record.mac_address.to_text(),
                vendor: clone_optional(&record.vendor_name),
            };
            pairs.push((record.ip_address.to_text(), entry));
            i = i + 1;
        }
        pairs
    }

    /// The line that says how many hosts are up.
    pub fn summary(&self) -> (r: String)
        ensures
            r@ == summary_line(self@.len()),
    {
        let mut out = String::new();
        push_dec(&mut out, self.records.len() as u64);
        out.append(" host online");
        proof {
            assert(out@ =~= summary_line(self@.len()));
        }
        out
    }
}

} // verus!
