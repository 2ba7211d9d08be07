//! The records of the service and vendor tables, and how they are read from
//! the text files that the tables are filled from.

use crate::lines::{fields, pieces, split, split_fields, split_on, trim, trimmed};
use crate::text::{all_dec_digits, push_char, push_range, string_of, to_chars};
use vstd::prelude::*;

verus! {

/// One row of the service table: what runs on a port.
#[derive(Debug)]
pub struct Service {
    pub port_number: String,
    pub protocol: String,
    pub service_name: String,
    pub description: String,
}

/// One row of the vendor table: who a hardware address prefix belongs to.
#[derive(Debug)]
pub struct Oui {
    pub mac_prefix: String,
    pub vendor_name: String,
    pub vendor_name_detail: String,
}

/// The mathematical content of a `Service`.
pub struct ServiceView {
    pub port_number: Seq<char>,
    pub protocol: Seq<char>,
    pub service_name: Seq<char>,
    pub description: Seq<char>,
}

/// The mathematical content of an `Oui`.
pub struct OuiView {
    pub mac_prefix: Seq<char>,
    pub vendor_name: Seq<char>,
    pub vendor_name_detail: Seq<char>,
}

impl View for Service {
    type V = ServiceView;

    open spec fn view(&self) -> ServiceView {
        ServiceView {
            port_number: self.port_number@,
            protocol: self.protocol@,
            service_name: self.service_name@,
            description: self.description@,
        }
    }
}

impl View for Oui {
    type V = OuiView;

    open spec fn view(&self) -> OuiView {
        OuiView {
            mac_prefix: self.mac_prefix@,
            vendor_name: self.vendor_name@,
            vendor_name_detail: self.vendor_name_detail@,
        }
    }
}

/// Whether `pattern` stands in `s` at position `at`.
pub open spec fn stands_at(s: Seq<char>, pattern: Seq<char>, at: int) -> bool {
    0 <= at && at + pattern.len() <= s.len() && s.subrange(at, at + pattern.len()) == pattern
}

/// Whether `pattern` occurs somewhere in `s`.
pub open spec fn occurs_in(s: Seq<char>, pattern: Seq<char>) -> bool {
    exists|at: int| stands_at(s, pattern, at)
}

/// Whether the name of a file says that its fields are separated by commas:
/// it holds `.csv` or `.CSV`.
pub open spec fn names_csv(path: Seq<char>) -> bool {
    occurs_in(path, ".csv"@) || occurs_in(path, ".CSV"@)
}

fn matches_at(s: &Vec<char>, pattern: &Vec<char>, at: usize) -> (r: bool)
    requires
        at + pattern.len() <= s.len(),
    ensures
        r == stands_at(s@, pattern@, at as int),
{
    let m: usize = pattern.len();
    let n: usize = s.len();
    let mut k: usize = 0;
    while k < m
        invariant
            k <= m,
            m == pattern@.len(),
            n == s@.len(),
            at + m <= n,
            forall|j: int| 0 <= j < k ==> s@[at + j] == pattern@[j],
        decreases m - k,
    {
        if s[at + k] != pattern[k] {
            proof {
                let piece = s@.subrange(at as int, at + m);
                assert(piece[k as int] == s@[at + k]);
            }
            return false;
        }
        k = k + 1;
    }
    proof {
        assert(s@.subrange(at as int, at + m) =~= pattern@);
    }
    true
}

/// Whether `pattern` occurs somewhere in `s`.
pub fn contains_chars(s: &Vec<char>, pattern: &Vec<char>) -> (r: bool)
    ensures
        r == occurs_in(s@, pattern@),
{
    let n: usize = s.len();
    let m: usize = pattern.len();
    if m > n {
        return false;
    }
    let last: usize = n - m;
    let mut at: usize = 0;
    while at < last
        invariant
            m <= n,
            n == s@.len(),
            m == pattern@.len(),
            last == n - m,
            at <= last,
            forall|j: int| 0 <= j < at ==> !stands_at(s@, pattern@, j),
        decreases last - at,
    {
        if matches_at(s, pattern, at) {
            return true;
        }
        at = at + 1;
    }
    matches_at(s, pattern, last)
}

/// Whether the name of a file says that its fields are separated by commas.
pub fn is_csv_path(file_path: &str) -> (r: bool)
    ensures
        r == names_csv(file_path@),
{
    let path = to_chars(file_path);
    let lower = to_chars(".csv");
    let upper = to_chars(".CSV");
    contains_chars(&path, &lower) || contains_chars(&path, &upper)
}

/// The fields of one row: the pieces between commas of the row without the
/// white space around it, or the runs of characters that are not white
/// space.
pub open spec fn row_fields(row: Seq<char>, csv: bool) -> Seq<Seq<char>> {
    if csv {
        split_on(trimmed(row), ',')
    } else {
        fields(row)
    }
}

/// The service that a row describes: name, port, protocol and description
/// are its first four fields. A row with fewer fields, or whose port is
/// empty or not made of decimal digits, describes none.
pub open spec fn service_of_row(row: Seq<char>, csv: bool) -> Option<ServiceView> {
    let v = row_fields(row, csv);
    if v.len() < 4 || v[1].len() == 0 || !all_dec_digits(v[1]) {
        None
    } else {
        Some(
            ServiceView {
                port_number: v[1],
                protocol: v[2],
                service_name: v[0],
                description: v[3],
            },
        )
    }
}

/// The fields from the third on, each with a space before it.
pub open spec fn spaced_from_third(v: Seq<Seq<char>>) -> Seq<char>
    decreases v.len(),
{
    if v.len() <= 2 {
        Seq::empty()
    } else {
        spaced_from_third(v.drop_last()) + seq![' '] + v.last()
    }
}

/// The vendor that a row describes: prefix and name are its first two
/// fields; the detailed name is the third field, or, where there are more,
/// all fields from the third on with a space before each. A comment row,
/// which begins with `#`, and a row with fewer than three fields describe
/// none.
pub open spec fn oui_of_row(row: Seq<char>, csv: bool) -> Option<OuiView> {
    let v = row_fields(row, csv);
    if (row.len() > 0 && row[0] == '#') || v.len() < 3 {
        None
    } else {
        Some(
            OuiView {
                mac_prefix: v[0],
                vendor_name: v[1],
                vendor_name_detail: if v.len() > 3 {
                    spaced_from_third(v)
                } else {
                    v[2]
                },
            },
        )
    }
}

/// The services that rows describe, in order.
pub open spec fn services_of_rows(rows: Seq<Seq<char>>, csv: bool) -> Seq<ServiceView>
    decreases rows.len(),
{
    if rows.len() == 0 {
        Seq::empty()
    } else {
        let before = services_of_rows(rows.drop_last(), csv);
        match service_of_row(rows.last(), csv) {
            Some(s) => before.push(s),
            None => before,
        }
    }
}

/// The vendors that rows describe, in order.
pub open spec fn ouis_of_rows(rows: Seq<Seq<char>>, csv: bool) -> Seq<OuiView>
    decreases rows.len(),
{
    if rows.len() == 0 {
        Seq::empty()
    } else {
        let before = ouis_of_rows(rows.drop_last(), csv);
        match oui_of_row(rows.last(), csv) {
            Some(o) => before.push(o),
            None => before,
        }
    }
}

/// The views of a list of services, in order.
pub open spec fn service_views(v: Seq<Service>) -> Seq<ServiceView> {
    v.map_values(|s: Service| s@)
}

/// The views of a list of vendors, in order.
pub open spec fn oui_views(v: Seq<Oui>) -> Seq<OuiView> {
    v.map_values(|o: Oui| o@)
}

fn fields_of_row(row: &Vec<char>, csv: bool) -> (r: Vec<Vec<char>>)
    ensures
        pieces(r@) == row_fields(row@, csv),
{
    if csv {
        let t = trim(row);
        split(&t, ',')
    } else {
        split_fields(row)
    }
}

fn digits_only(s: &Vec<char>) -> (r: bool)
    ensures
        r == all_dec_digits(s@),
{
    let mut i: usize = 0;
    while i < s.len()
        invariant
            i <= s.len(),
            forall|j: int| 0 <= j < i ==> crate::text::is_dec_digit(#[trigger] s@[j]),
        decreases s.len() - i,
    {
        let c: char = s[i];
        if !('0' <= c && c <= '9') {
            return false;
        }
        i = i + 1;
    }
    true
}

/// The view of an optional service.
pub open spec fn service_view(s: Option<Service>) -> Option<ServiceView> {
    match s {
        Some(x) => Some(x@),
        None => None,
    }
}

/// The view of an optional vendor.
pub open spec fn oui_view(o: Option<Oui>) -> Option<OuiView> {
    match o {
        Some(x) => Some(x@),
        None => None,
    }
}

impl Service {
    /// The service that one row of a services file describes, if any.
    pub fn from_row(row: &Vec<char>, csv: bool) -> (r: Option<Service>)
        ensures
            service_view(r) == service_of_row(row@, csv),
    {
        let v = fields_of_row(row, csv);
        proof {
            assert(forall|i: int| 0 <= i < v@.len() ==> pieces(v@)[i] == v@[i]@);
        }
        if v.len() < 4 {
            return None;
        }
        if v[1].len() == 0 || !digits_only(&v[1]) {
            return None;
        }
        Some(
            Service {
                port_number: string_of(&v[1]),
                protocol: string_of(&v[2]),
                service_name: string_of(&v[0]),
                description: string_of(&v[3]),
            },
        )
    }
}

impl Oui {
    /// The vendor that one row of a vendors file describes, if any.
    pub fn from_row(row: &Vec<char>, csv: bool) -> (r: Option<Oui>)
        ensures
            oui_view(r) == oui_of_row(row@, csv),
    {
        let v = fields_of_row(row, csv);
        proof {
            assert(forall|i: int| 0 <= i < v@.len() ==> pieces(v@)[i] == v@[i]@);
        }
        if row.len() > 0 && row[0] == '#' {
            return None;
        }
        if v.len() < 3 {
            return None;
        }
        let detail = if v.len() > 3 {
            let mut name = String::new();
            let ghost all = pieces(v@);
            let n: usize = v.len();
            let mut i: usize = 2;
            proof {
                assert(spaced_from_third(all.take(2)) =~= Seq::<char>::empty());
            }
            while i < n
                invariant
                    2 <= i <= n,
                    n == v@.len(),
                    all == pieces(v@),
                    name@ == spaced_from_third(all.take(i as int)),
                decreases n - i,
            {
                let ghost before = name@;
                push_char(&mut name, ' ');
                push_range(&mut name, &v[i], 0, v[i].len());
                proof {
                    let longer = all.take(i + 1);
                    assert(longer.drop_last() =~= all.take(i as int));
                    assert(longer.last() == v@[i as int]@);
                    assert(v@[i as int]@.subrange(0, v@[i as int]@.len() as int) =~= v@[i as int]@);
                    assert(name@ =~= before + seq![' '] + v@[i as int]@);
                }
                i = i + 1;
            }
            proof {
                assert(all.take(n as int) =~= all);
            }
            name
        } else {
            string_of(&v[2])
        };
        Some(
            Oui {
                mac_prefix: string_of(&v[0]),
                vendor_name: string_of(&v[1]),
                vendor_name_detail: detail,
            },
        )
    }
}

/// The services that the text of a services file describes: one per line
/// that describes one, in the order of the lines.
pub fn parse_services(text: &str, csv: bool) -> (r: Vec<Service>)
    ensures
        service_views(r@) == services_of_rows(split_on(text@, '\n'), csv),
{
    let chars = to_chars(text);
    let rows = split(&chars, '\n');
    let ghost all = pieces(rows@);
    let mut out: Vec<Service> = Vec::new();
    let n: usize = rows.len();
    let mut i: usize = 0;
    proof {
        assert(service_views(out@) =~= services_of_rows(all.take(0), csv));
    }
    while i < n
        invariant
            i <= n,
            n == rows@.len(),
            all == pieces(rows@),
            service_views(out@) == services_of_rows(all.take(i as int), csv),
        decreases n - i,
    {
        let ghost before = service_views(out@);
        proof {
            let longer = all.take(i + 1);
            assert(longer.drop_last() =~= all.take(i as int));
            assert(longer.last() == rows@[i as int]@);
        }
        match Service::from_row(&rows[i], csv) {
            Some(s) => {
                out.push(s);
                proof {
                    assert(service_views(out@) =~= before.push(s@));
                }
            },
            None => {},
        }
        i = i + 1;
    }
    proof {
        assert(all.take(n as int) =~= all);
    }
    out
}

/// The vendors that the text of a vendors file describes: one per line that
/// describes one, in the order of the lines.
pub fn parse_ouis(text: &str, csv: bool) -> (r: Vec<Oui>)
    ensures
        oui_views(r@) == ouis_of_rows(split_on(text@, '\n'), csv),
{
    let chars = to_chars(text);
    let rows = split(&chars, '\n');
    let ghost all = pieces(rows@);
    let mut out: Vec<Oui> = Vec::new();
    let n: usize = rows.len();
    let mut i: usize = 0;
    proof {
        assert(oui_views(out@) =~= ouis_of_rows(all.take(0), csv));
    }
    while i < n
        invariant
            i <= n,
            n == rows@.len(),
            all == pieces(rows@),
            oui_views(out@) == ouis_of_rows(all.take(i as int), csv),
        decreases n - i,
    {
        let ghost before = oui_views(out@);
        proof {
            let longer = all.take(i + 1);
            assert(longer.drop_last() =~= all.take(i as int));
            assert(longer.last() == rows@[i as int]@);
        }
        match Oui::from_row(&rows[i], csv) {
            Some(o) => {
                out.push(o);
                proof {
                    assert(oui_views(out@) =~= before.push(o@));
                }
            },
            None => {},
        }
        i = i + 1;
    }
    proof {
        assert(all.take(n as int) =~= all);
    }
    out
}

} // verus!
