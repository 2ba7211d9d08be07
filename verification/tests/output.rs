use nscan::addr::{Ipv4, MacAddr};
use nscan::arp::ArpBinding;
use nscan::db::{is_csv_path, parse_ouis, parse_services, Oui, Service};
use nscan::iface::NetworkInterface;
use nscan::option::{DomainOption, HostOption, PortOption, UriOption};
use nscan::output::{
    print_host_info, print_host_record, print_service, response_class, save_domain_result,
    save_host_result, save_port_result, save_uri_result, scan_status_label, PortFinding,
    ResponseClass, ScanStatus,
};
use nscan::report::DiscoveryReport;
use nscan::validator::validate_interface;

#[test]
fn saved_host_scan() {
    let mut opt = HostOption::new();
    opt.ip_addr = "192.168.1.0".to_string();
    let bindings = vec![
        ArpBinding::resolved(Ipv4::new(192, 168, 1, 1), MacAddr::new(0xaa, 0xbb, 0xcc, 0, 0, 1)),
        ArpBinding::unresolved(Ipv4::new(192, 168, 1, 50)),
    ];
    let vendors = vec![Some("Acme Inc.".to_string()), None];
    let report = DiscoveryReport::assemble(&bindings, &vendors);
    assert_eq!(
        save_host_result(&opt, &report),
        "[OPTIONS]\nNETWORK: 192.168.1.0\n[RESULTS]\n192.168.1.1,aa:bb:cc:00:00:01,Acme Inc.\n192.168.1.50,Unknown\n"
    );
    let empty = DiscoveryReport::assemble(&vec![], &vec![]);
    assert_eq!(save_host_result(&opt, &empty), "[OPTIONS]\nNETWORK: 192.168.1.0\n[RESULTS]\n");
    assert_eq!(empty.summary(), "0 host online");
    assert_eq!(report.get(0).duplicate().vendor_name, Some("Acme Inc.".to_string()));
}

#[test]
fn saved_uri_scan() {
    let mut opt = UriOption::new();
    opt.set_option("http://h/".to_string());
    opt.set_file_path("common.txt".to_string());
    let responses = vec![
        ("http://h/admin".to_string(), "200 OK".to_string()),
        ("http://h/x".to_string(), "404 Not Found".to_string()),
    ];
    assert_eq!(
        save_uri_result(&opt, &responses),
        "[OPTIONS]\nBASE_URI: http://h/\nWORD_LIST: common.txt\n[RESULTS]\nhttp://h/admin,200 OK\nhttp://h/x,404 Not Found\n"
    );
}

#[test]
fn saved_port_scan() {
    let mut opt = PortOption::new();
    opt.set_option("10.0.0.1:1-1000".to_string());
    let findings = vec![
        PortFinding {
            port: "22".to_string(),
            service: Some(Service {
                port_number: "22".to_string(),
                protocol: "tcp".to_string(),
                service_name: "ssh".to_string(),
                description: "Secure Shell".to_string(),
            }),
        },
        PortFinding { port: "8081".to_string(), service: None },
    ];
    assert_eq!(
        save_port_result(&opt, &findings),
        "[OPTIONS]\nIP_ADDR:10.0.0.1\nSTART_PORT:1\nEND_PORT:1000\n[RESULTS]\n22,tcp,ssh,Secure Shell\n8081,Unknown service\n"
    );
}

#[test]
fn saved_domain_scan() {
    let mut opt = DomainOption::new();
    opt.set_option("example.com".to_string());
    opt.set_file_path("sub.txt".to_string());
    let found = vec![
        ("www.example.com".to_string(), vec!["1.2.3.4".to_string(), "::1".to_string()]),
        ("mail.example.com".to_string(), vec![]),
    ];
    assert_eq!(
        save_domain_result(&opt, &Some(vec!["9.9.9.9".to_string()]), &found),
        "[OPTIONS]\nBASE_DOMAIN: example.com\nWORD_LIST: sub.txt\n[RESULTS]\nexample.com,9.9.9.9\nwww.example.com,1.2.3.4,::1\nmail.example.com\n"
    );
    assert_eq!(
        save_domain_result(&opt, &None, &vec![]),
        "[OPTIONS]\nBASE_DOMAIN: example.com\nWORD_LIST: sub.txt\n[RESULTS]\n"
    );
}

#[test]
fn shown_lines_and_labels() {
    assert_eq!(scan_status_label(ScanStatus::Done), "Done");
    assert_eq!(scan_status_label(ScanStatus::Timeout), "Timed out");
    assert_eq!(scan_status_label(ScanStatus::Error), "Error");
    assert_eq!(response_class("200 OK"), ResponseClass::Success);
    assert_eq!(response_class("404"), ResponseClass::Failure);
    assert_eq!(response_class("503 x"), ResponseClass::Failure);
    assert_eq!(response_class("301"), ResponseClass::Other);
    assert_eq!(response_class(""), ResponseClass::Other);
    let service = Service {
        port_number: "443".to_string(),
        protocol: "tcp".to_string(),
        service_name: "https".to_string(),
        description: "".to_string(),
    };
    assert_eq!(print_service(&service), "     443    https");
    let known = Oui {
        mac_prefix: "AA:BB:CC".to_string(),
        vendor_name: "Acme".to_string(),
        vendor_name_detail: " Acme Networks".to_string(),
    };
    assert_eq!(
        print_host_info("192.168.1.1".to_string(), "aa:bb:cc:00:00:01".to_string(), known),
        "    192.168.1.1         aa:bb:cc:00:00:01 Acme Networks"
    );
    let unknown = Oui {
        mac_prefix: "00:00:00".to_string(),
        vendor_name: "".to_string(),
        vendor_name_detail: "whatever".to_string(),
    };
    assert_eq!(
        print_host_info("10.0.0.1".to_string(), "00:00:00:00:00:00".to_string(), unknown),
        "    10.0.0.1            00:00:00:00:00:00 Unknown"
    );
}

#[test]
fn rows_of_the_table_files() {
    assert!(is_csv_path("data/services.csv"));
    assert!(is_csv_path("X.CSV.bak"));
    assert!(!is_csv_path("services.Csv"));
    assert!(!is_csv_path("csv"));
    let services = parse_services("ssh 22 tcp Secure Shell\n# comment\nbad x tcp y\nshort 1 tcp\n\nhttp\t80\ttcp\tWeb extra\n", false);
    assert_eq!(services.len(), 2);
    assert_eq!(services[0].service_name, "ssh");
    assert_eq!(services[0].port_number, "22");
    assert_eq!(services[0].protocol, "tcp");
    assert_eq!(services[0].description, "Secure");
    assert_eq!(services[1].service_name, "http");
    assert_eq!(services[1].description, "Web");
    let services = parse_services(" ssh,22,tcp,Secure Shell \nname,,tcp,x\nname,12a,tcp,x", true);
    assert_eq!(services.len(), 1);
    assert_eq!(services[0].description, "Secure Shell");

    let ouis = parse_ouis("# OUI list\n00:00:0C Cisco Cisco Systems, Inc\n00:00:0E Fujitsu Fujitsu\nshort row\n", false);
    assert_eq!(ouis.len(), 2);
    assert_eq!(ouis[0].mac_prefix, "00:00:0C");
    assert_eq!(ouis[0].vendor_name, "Cisco");
    assert_eq!(ouis[0].vendor_name_detail, " Cisco Systems, Inc");
    assert_eq!(ouis[1].vendor_name_detail, "Fujitsu");
    let ouis = parse_ouis("00:00:0C,Cisco,Cisco Systems\n#x,y,z", true);
    assert_eq!(ouis.len(), 1);
    assert_eq!(ouis[0].vendor_name_detail, "Cisco Systems");
}

#[test]
fn interface_names() {
    let list = vec![NetworkInterface {
        index: 1,
        name: "en0".to_string(),
        hardware_address: MacAddr::zero(),
        ipv4: vec![],
    }];
    assert_eq!(validate_interface("en0".to_string(), &list), Ok(()));
    assert_eq!(validate_interface("en1".to_string(), &list), Err("Invalid network interface name".to_string()));
}

#[test]
fn lines_of_the_host_table() {
    let own = Ipv4::new(192, 168, 1, 10);
    let bindings = vec![
        ArpBinding::resolved(Ipv4::new(192, 168, 1, 1), MacAddr::new(0xaa, 0xbb, 0xcc, 0, 0, 1)),
        ArpBinding::resolved(own, MacAddr::new(2, 0, 0, 0, 0, 0x0a)),
        ArpBinding::unresolved(Ipv4::new(192, 168, 100, 250)),
    ];
    let vendors = vec![Some("Acme Inc.".to_string()), None, None];
    let report = DiscoveryReport::assemble(&bindings, &vendors);
    assert_eq!(
        print_host_record(report.get(0), Some(own)),
        "    192.168.1.1         aa:bb:cc:00:00:01 Acme Inc."
    );
    assert_eq!(
        print_host_record(report.get(1), Some(own)),
        "    192.168.1.10        02:00:00:00:00:0a Own device"
    );
    assert_eq!(
        print_host_record(report.get(1), None),
        "    192.168.1.10        02:00:00:00:00:0a Unknown"
    );
    assert_eq!(
        print_host_record(report.get(2), Some(own)),
        "    192.168.100.250     00:00:00:00:00:00 Unknown"
    );
    assert_eq!(report.get(0).label(Some(own)), "Acme Inc.");
    assert_eq!(report.get(2).label(Some(own)), "Unknown");
}

#[test]
fn machine_readable_form_of_a_report() {
    let bindings = vec![
        ArpBinding::resolved(Ipv4::new(192, 168, 1, 1), MacAddr::new(0xaa, 0xbb, 0xcc, 0, 0, 1)),
        ArpBinding::unresolved(Ipv4::new(192, 168, 1, 50)),
    ];
    let vendors = vec![Some("Acme Inc.".to_string()), None];
    let report = DiscoveryReport::assemble(&bindings, &vendors);
    let pairs = report.entries();
    assert_eq!(pairs.len(), 2);
    assert_eq!(pairs[0].0, "192.168.1.1");
    assert_eq!(pairs[0].1.mac, "aa:bb:cc:00:00:01");
    assert_eq!(pairs[0].1.vendor, Some("Acme Inc.".to_string()));
    assert_eq!(pairs[1].0, "192.168.1.50");
    assert_eq!(pairs[1].1.mac, "00:00:00:00:00:00");
    assert_eq!(pairs[1].1.vendor, None);
    assert!(DiscoveryReport::assemble(&vec![], &vec![]).entries().is_empty());
}
