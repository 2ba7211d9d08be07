use nscan::addr::Ipv4;
use nscan::discovery::CandidateSource;
use nscan::option::HostOption;
use nscan::sys::IpValue;
use nscan::target::{host_scan_source, source_of_address, TargetError};

#[test]
fn network_of_the_options_is_scanned_as_a_block() {
    let mut opt = HostOption::new();
    assert!(opt.set_option("192.168.1.77".to_string()).is_ok());
    assert_eq!(opt.ip_addr, "192.168.1.0");
    match host_scan_source(&opt, "10.0.0.1\n") {
        Ok(CandidateSource::Block { base, prefix }) => {
            assert_eq!(base, Ipv4::new(192, 168, 1, 0));
            assert_eq!(prefix, 24);
        }
        other => panic!("unexpected source {:?}", other),
    }
}

#[test]
fn ipv6_network_is_not_scanned() {
    let mut opt = HostOption::new();
    assert!(opt.set_option("fe80::1".to_string()).is_ok());
    assert!(matches!(host_scan_source(&opt, ""), Err(TargetError::NotSupported)));
    assert_eq!(TargetError::NotSupported.message(), "Currently not supported.");
}

#[test]
fn text_that_is_no_address_names_no_network() {
    let mut opt = HostOption::new();
    opt.ip_addr = "192.168.1".to_string();
    assert!(matches!(host_scan_source(&opt, ""), Err(TargetError::InvalidAddress)));
    assert_eq!(TargetError::InvalidAddress.message(), "Invalid IP address");
    let empty = HostOption::new();
    assert!(matches!(host_scan_source(&empty, ""), Err(TargetError::InvalidAddress)));
}

#[test]
fn word_list_names_the_hosts() {
    let mut opt = HostOption::new();
    opt.set_file_path("hosts.txt".to_string());
    match host_scan_source(&opt, "  192.168.1.5\nprinter\n10.0.0.1\n::1\n192.168.1.5\n\n") {
        Ok(CandidateSource::Addresses(list)) => {
            assert_eq!(
                list,
                vec![Ipv4::new(192, 168, 1, 5), Ipv4::new(10, 0, 0, 1), Ipv4::new(192, 168, 1, 5)]
            );
        }
        other => panic!("unexpected source {:?}", other),
    }
}

#[test]
fn neither_network_nor_word_list_names_no_host() {
    let mut opt = HostOption::new();
    opt.scan_host_addr = false;
    match host_scan_source(&opt, "10.0.0.1\n") {
        Ok(CandidateSource::Addresses(list)) => assert!(list.is_empty()),
        other => panic!("unexpected source {:?}", other),
    }
}

#[test]
fn address_read_from_the_options() {
    match source_of_address(Some(IpValue::V4(0x0a000001))) {
        Ok(CandidateSource::Block { base, prefix }) => {
            assert_eq!(base, Ipv4::new(10, 0, 0, 1));
            assert_eq!(prefix, 24);
        }
        other => panic!("unexpected source {:?}", other),
    }
    assert!(matches!(source_of_address(Some(IpValue::V6(1))), Err(TargetError::NotSupported)));
    assert!(matches!(source_of_address(None), Err(TargetError::InvalidAddress)));
}
