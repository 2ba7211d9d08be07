use nscan::validator::{
    validate_domain_opt, validate_filepath, validate_host_opt, validate_port_opt,
    validate_timeout, validate_uri_opt,
};

#[test]
fn timeout_must_be_a_positive_number() {
    assert_eq!(validate_timeout("10000".to_string()), Ok(()));
    assert_eq!(validate_timeout("+5".to_string()), Ok(()));
    assert_eq!(validate_timeout("0".to_string()), Err("Invalid timeout value".to_string()));
    assert_eq!(validate_timeout("".to_string()), Err("Invalid timeout value".to_string()));
    assert_eq!(validate_timeout("12a".to_string()), Err("Invalid timeout value".to_string()));
    assert_eq!(validate_timeout("-1".to_string()), Err("Invalid timeout value".to_string()));
    assert_eq!(validate_timeout("18446744073709551615".to_string()), Ok(()));
    assert_eq!(
        validate_timeout("18446744073709551616".to_string()),
        Err("Invalid timeout value".to_string())
    );
}

#[test]
fn missing_file_is_named_in_the_message() {
    assert_eq!(
        validate_filepath("/no/such/file/anywhere".to_string()),
        Err("File /no/such/file/anywhere does not exist".to_string())
    );
    assert_eq!(validate_filepath("/".to_string()), Ok(()));
}

#[test]
fn host_target_is_an_address_of_either_family() {
    assert_eq!(validate_host_opt("192.168.1.0".to_string()), Ok(()));
    assert_eq!(validate_host_opt("::1".to_string()), Ok(()));
    assert_eq!(
        validate_host_opt("192.168.1".to_string()),
        Err("Please specify ip address".to_string())
    );
}

#[test]
fn port_target_needs_address_and_range() {
    assert_eq!(validate_port_opt("192.168.1.8:1-1000".to_string()), Ok(()));
    assert_eq!(
        validate_port_opt("192.168.1.8".to_string()),
        Err("Please specify ip address and port number.".to_string())
    );
    assert_eq!(
        validate_port_opt("example:1-1000".to_string()),
        Err("Please specify ip address".to_string())
    );
}

#[test]
fn uri_and_domain_shapes() {
    assert_eq!(validate_uri_opt("http://192.168.1.8/xvwa/".to_string()), Ok(()));
    assert_eq!(validate_uri_opt("ftp//nothing".to_string()), Err("Please specify uri".to_string()));
    assert_eq!(validate_domain_opt("example.com".to_string()), Ok(()));
    assert_eq!(
        validate_domain_opt("localhost".to_string()),
        Err("Please specify domain name".to_string())
    );
}
