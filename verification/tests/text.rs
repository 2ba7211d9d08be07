use nscan::addr::{Ipv4, MacAddr};
use nscan::lines::{host_list, split, split_fields, trim, word_list};
use nscan::sys::{get_network_address, print_fix32, FillStr, SPACE4};
use nscan::text::{cut_at, parse_u64, parse_unsigned_from, string_of, to_chars};

fn chars(s: &str) -> Vec<char> {
    s.chars().collect()
}

fn strings(v: Vec<Vec<char>>) -> Vec<String> {
    v.iter().map(|p| p.iter().collect()).collect()
}

#[test]
fn unsigned_numbers_are_read_as_the_standard_library_reads_them() {
    for s in [
        "0", "7", "007", "+5", "5+", "+", "-0", "-5", "", " 1", "1 ", "1_0", "18446744073709551615",
        "18446744073709551616", "99999999999999999999999", "１２", "++1", "+0",
    ] {
        assert_eq!(parse_u64(s), s.parse::<u64>().ok(), "for {:?}", s);
    }
}

#[test]
fn numbers_with_a_limit() {
    assert_eq!(parse_unsigned_from(&chars("65535"), 0, 65535), Some(65535));
    assert_eq!(parse_unsigned_from(&chars("65536"), 0, 65535), None);
    assert_eq!(parse_unsigned_from(&chars("ab12"), 2, 65535), Some(12));
    assert_eq!(parse_unsigned_from(&chars("ab"), 2, 65535), None);
    assert_eq!(parse_unsigned_from(&chars("9"), 0, 5), None);
    assert_eq!(parse_unsigned_from(&chars("5"), 0, 5), Some(5));
}

#[test]
fn addresses_are_written_as_usual() {
    assert_eq!(Ipv4::new(192, 168, 1, 10).to_text(), "192.168.1.10");
    assert_eq!(Ipv4::from_bits(0).to_text(), "0.0.0.0");
    assert_eq!(Ipv4::from_bits(0xffff_ffff).to_text(), "255.255.255.255");
    assert_eq!(Ipv4::new(1, 20, 100, 9).bits, 0x0114_6409);
    assert_eq!(Ipv4::from_bits(0x0a00_00fe).octets(), [10, 0, 0, 254]);
    assert_eq!(MacAddr::new(0xaa, 0xbb, 0xcc, 0, 1, 0x9f).to_text(), "aa:bb:cc:00:01:9f");
    assert_eq!(MacAddr::zero().to_text(), "00:00:00:00:00:00");
    assert_eq!(MacAddr::broadcast().to_text(), "ff:ff:ff:ff:ff:ff");
    assert!(MacAddr::zero().is_zero());
    assert!(!MacAddr::new(0, 0, 0, 0, 0, 1).is_zero());
    assert_eq!(MacAddr::new(1, 2, 3, 4, 5, 6).octets(), [1, 2, 3, 4, 5, 6]);
    assert!(Ipv4::new(10, 0, 0, 2) < Ipv4::new(10, 0, 1, 0));
}

#[test]
fn cutting_and_copying() {
    let (head, tail) = cut_at(&chars("a:b:c"), ':');
    assert_eq!(string_of(&head), "a");
    assert_eq!(tail.map(|t| string_of(&t)), Some("b:c".to_string()));
    let (head, tail) = cut_at(&chars("abc"), ':');
    assert_eq!(string_of(&head), "abc");
    assert_eq!(tail, None);
    let (head, tail) = cut_at(&chars(":"), ':');
    assert_eq!(string_of(&head), "");
    assert_eq!(tail, Some(vec![]));
    assert_eq!(to_chars("héllo"), chars("héllo"));
}

#[test]
fn network_address_of_a_host() {
    assert_eq!(get_network_address("192.168.1.77".to_string()), Ok("192.168.1.0".to_string()));
    assert_eq!(get_network_address("10.1.2.0".to_string()), Ok("10.1.2.0".to_string()));
    assert_eq!(get_network_address("fd00:1234:5678::1".to_string()), Ok("fd00:1200::".to_string()));
    assert_eq!(get_network_address("192.168.1".to_string()), Err("Invalid IP Address".to_string()));
    assert_eq!(get_network_address("".to_string()), Err("Invalid IP Address".to_string()));
}

#[test]
fn ruled_lines_are_32_wide() {
    assert_eq!(print_fix32("Scan Reports", FillStr::Hyphen), "-Scan Reports-------------------");
    assert_eq!(print_fix32("", FillStr::Hyphen), "--------------------------------");
    assert_eq!(print_fix32("", FillStr::Equal), "================================");
    assert_eq!(print_fix32("a", FillStr::Equal).len(), 32);
    let long = "0123456789012345678901234567890123456789";
    assert_eq!(print_fix32(long, FillStr::Hyphen), long);
    let exactly = "01234567890123456789012345678901";
    assert_eq!(print_fix32(exactly, FillStr::Equal), exactly);
    assert_eq!(print_fix32("0123456789012345678901234567890", FillStr::Equal), "=0123456789012345678901234567890");
    assert_eq!(SPACE4, "    ");
}

#[test]
fn lines_and_fields() {
    assert_eq!(strings(split(&chars("a\nb\n\nc"), '\n')), vec!["a", "b", "", "c"]);
    assert_eq!(strings(split(&chars(""), '\n')), vec![""]);
    assert_eq!(strings(split(&chars("\n"), '\n')), vec!["", ""]);
    assert_eq!(strings(split_fields(&chars("  one two\tthree \u{3000}four  "))), vec!["one", "two", "three", "four"]);
    assert_eq!(strings(split_fields(&chars("   "))), Vec::<String>::new());
    assert_eq!(strings(split_fields(&chars("x"))), vec!["x"]);
    for s in ["  a b \n", "", "   ", "x", "\t\u{a0}x y\u{2003}"] {
        assert_eq!(string_of(&trim(&chars(s))), s.trim(), "for {:?}", s);
        let by_std: Vec<&str> = s.split_whitespace().collect();
        assert_eq!(strings(split_fields(&chars(s))), by_std, "for {:?}", s);
    }
}

#[test]
fn word_lists() {
    assert_eq!(word_list("admin\nlogin\n\nindex.html\n"), vec!["admin", "login", "", "index.html"]);
    assert_eq!(word_list("\n\n"), vec![""]);
    assert_eq!(
        host_list("192.168.1.5\nnot an address\n::1\n10.0.0.1\n 10.0.0.2\n"),
        vec![Ipv4::new(192, 168, 1, 5), Ipv4::new(10, 0, 0, 1)]
    );
}
