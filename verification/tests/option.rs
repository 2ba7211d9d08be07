use nscan::option::{
    parse_port_option, DomainOption, HostOption, PortOption, PortScanType, UriOption,
};

#[test]
fn port_option_defaults_and_setters() {
    let mut opt = PortOption::new();
    assert_eq!(opt.ip_addr, "");
    assert_eq!((opt.start_port, opt.end_port, opt.app_port), (0, 0, 65432));
    assert_eq!(opt.scan_type, PortScanType::SynScan);
    assert!(!opt.use_wordlist);
    assert_eq!(opt.timeout_ms, 30000);
    opt.set_option("192.168.1.8:1-1000".to_string());
    assert_eq!(opt.ip_addr, "192.168.1.8");
    assert_eq!((opt.start_port, opt.end_port), (1, 1000));
    opt.set_if_name("".to_string());
    assert_eq!(opt.if_name, "");
    opt.set_if_name("en0".to_string());
    assert_eq!(opt.if_name, "en0");
    opt.set_file_path("".to_string());
    assert!(!opt.use_wordlist);
    opt.set_file_path("ports.txt".to_string());
    assert!(opt.use_wordlist);
    assert_eq!(opt.wordlist_path, "ports.txt");
    opt.set_timeout("10000".to_string());
    assert_eq!(opt.timeout_ms, 10000);
    opt.set_save_path("out.txt".to_string());
    assert_eq!(opt.save_path, "out.txt");
    assert_eq!(
        opt.show_options(),
        vec!["Port Scan Options:", "    IP Address: 192.168.1.8", "    Port Range: 1-1000", "    Scan Type: Syn Scan"]
    );
}

#[test]
fn port_option_text() {
    assert_eq!(parse_port_option("10.0.0.1:20-25"), Some(("10.0.0.1".to_string(), 20, 25)));
    assert_eq!(parse_port_option("10.0.0.1:20-25-30:x"), Some(("10.0.0.1".to_string(), 20, 25)));
    assert_eq!(parse_port_option("host:0-65535"), Some(("host".to_string(), 0, 65535)));
    assert_eq!(parse_port_option("host:0-65536"), None);
    assert_eq!(parse_port_option("host:20"), None);
    assert_eq!(parse_port_option("host"), None);
    assert_eq!(parse_port_option("::1:80-90"), None);
    assert_eq!(parse_port_option("host:a-b"), None);
    assert_eq!(parse_port_option(":1-2"), Some(("".to_string(), 1, 2)));
}

#[test]
fn host_option_defaults_and_setters() {
    let mut opt = HostOption::new();
    assert!(opt.scan_host_addr);
    assert!(!opt.use_wordlist);
    assert_eq!(opt.timeout_ms, 30000);
    assert_eq!(opt.set_option("192.168.1.42".to_string()), Ok(()));
    assert_eq!(opt.ip_addr, "192.168.1.0");
    assert_eq!(opt.show_options(), vec!["Host Scan Options:", "    Target Network: 192.168.1.0"]);
    assert_eq!(opt.set_option("nonsense".to_string()), Err("Invalid IP Address".to_string()));
    assert_eq!(opt.ip_addr, "192.168.1.0");
    opt.set_file_path("".to_string());
    assert!(opt.scan_host_addr);
    opt.set_file_path("hosts.txt".to_string());
    assert!(!opt.scan_host_addr);
    assert!(opt.use_wordlist);
    assert_eq!(opt.wordlist_path, "hosts.txt");
    assert_eq!(opt.show_options(), vec!["Host Scan Options:", "    Target: Specified in word list hosts.txt"]);
    opt.set_timeout("1".to_string());
    assert_eq!(opt.timeout_ms, 1);
    opt.set_save_path("r.txt".to_string());
    assert_eq!(opt.save_path, "r.txt");
}

#[test]
fn uri_option_defaults_and_setters() {
    let mut opt = UriOption::new();
    assert_eq!(opt.base_uri, "");
    opt.set_option("http://192.168.1.8/xvwa".to_string());
    assert_eq!(opt.base_uri, "http://192.168.1.8/xvwa/");
    opt.set_option("http://192.168.1.8/xvwa/".to_string());
    assert_eq!(opt.base_uri, "http://192.168.1.8/xvwa/");
    opt.set_option("".to_string());
    assert_eq!(opt.base_uri, "/");
    assert_eq!(opt.show_options(), vec!["URI Scan Options:", "    Base URI: /"]);
    opt.set_file_path("common.txt".to_string());
    assert!(opt.use_wordlist);
    assert_eq!(opt.show_options(), vec!["URI Scan Options:", "    Base URI: /", "    Word list: common.txt"]);
    opt.set_timeout("250".to_string());
    assert_eq!(opt.timeout_ms, 250);
}

#[test]
fn domain_option_defaults_and_setters() {
    let mut opt = DomainOption::new();
    assert_eq!(opt.timeout_ms, 30000);
    opt.set_option("example.com".to_string());
    assert_eq!(opt.base_domain, "example.com");
    opt.set_file_path("".to_string());
    assert!(!opt.use_wordlist);
    assert_eq!(opt.show_options(), vec!["Domain Scan Options:", "    Base Domain Name: example.com"]);
    opt.set_file_path("subdomain.txt".to_string());
    assert_eq!(opt.wordlist_path, "subdomain.txt");
    opt.set_timeout("+42".to_string());
    assert_eq!(opt.timeout_ms, 42);
    opt.set_save_path("d.txt".to_string());
    assert_eq!(opt.save_path, "d.txt");
}
