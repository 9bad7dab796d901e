use landscape::cli::{dhcp_client_test, dhcp_v6_pd_test, icmp_sock_test};
use landscape::net::{clean_ip_string, ipv4_to_string, parse_mac, to_ipv4_mapped, usable_gateway, IpAddress};
use landscape::sys_service::config_service::{content_hash, to_hex_lower, update_config_section, ConfigUpdateError};
use landscape::text::{decimal_string, ends_with_char, join_strings, push_decimal};

#[test]
fn ipv4_text_is_dotted_decimal() {
    assert_eq!(ipv4_to_string(0xc0a80101), "192.168.1.1");
    assert_eq!(ipv4_to_string(0), "0.0.0.0");
    assert_eq!(ipv4_to_string(u32::MAX), "255.255.255.255");
}

#[test]
fn clean_ip_shows_mapped_ipv4_as_ipv4() {
    assert_eq!(to_ipv4_mapped(0xffff_0a00_0001), Some(0x0a000001));
    assert_eq!(to_ipv4_mapped(1), None);
    assert_eq!(clean_ip_string(&IpAddress::V6(0xffff_0a00_0001)), "10.0.0.1");
    assert_eq!(clean_ip_string(&IpAddress::V4(0x0a000002)), "10.0.0.2");
    let v6 = 0x2001_0db8_0000_0000_0000_0000_0000_0001u128;
    assert_eq!(clean_ip_string(&IpAddress::V6(v6)), "2001:db8::1");
}

#[test]
fn gateway_classes() {
    assert!(usable_gateway(0xc0a80101));
    assert!(!usable_gateway(0xffff_ffff));
    assert!(!usable_gateway(0));
    assert!(!usable_gateway(0x7f000001));
    assert!(!usable_gateway(0x7fffffff));
    assert!(usable_gateway(0x80000000));
}

#[test]
fn mac_text_reads_six_hex_pairs() {
    assert_eq!(parse_mac("00:a0:98:39:32:f0"), Some([0x00, 0xa0, 0x98, 0x39, 0x32, 0xf0]));
    assert_eq!(parse_mac("AA:BB:CC:DD:EE:FF"), Some([0xaa, 0xbb, 0xcc, 0xdd, 0xee, 0xff]));
    assert_eq!(parse_mac("00-a0-98-39-32-f0"), None);
    assert_eq!(parse_mac("00:a0:98:39:32"), None);
    assert_eq!(parse_mac("00:a0:98:39:32:fg"), None);
}

#[test]
fn decimal_and_joining() {
    assert_eq!(decimal_string(0), "0");
    assert_eq!(decimal_string(1234567890), "1234567890");
    let mut t = "n=".to_string();
    push_decimal(&mut t, 42);
    assert_eq!(t, "n=42");
    assert_eq!(join_strings(&vec!["a".to_string(), "b".to_string(), "c".to_string()], " AND "), "a AND b AND c");
    assert_eq!(join_strings(&vec![], ","), "");
    assert!(ends_with_char("x.", '.'));
    assert!(!ends_with_char("", '.'));
}

#[test]
fn config_hash_is_sha256_hex() {
    assert_eq!(content_hash(""), "e3b0c44298fc1c149afbf4c8996fb92427ae41e4649b934ca495991b7852b855");
    assert_eq!(content_hash("abc"), "ba7816bf8f01cfea414140de5dae2223b00361a396177a9cb410ff61f20015ad");
    assert_eq!(to_hex_lower(&vec![0, 15, 16, 255]), "000f10ff");
}

#[test]
fn config_section_update_checks_hash_and_toml() {
    let current = "[ui]\ntheme = \"dark\"\n\n[dns]\nport = 53\n";
    let hash = content_hash(current);
    assert!(matches!(update_config_section(current, "nope", "dns", Ok("port = 5353\n")), Err(ConfigUpdateError::ConfigConflict)));
    assert!(matches!(update_config_section(current, &hash, "dns", Ok("port = = 1")), Err(ConfigUpdateError::ConfigError(_))));
    assert!(matches!(update_config_section("[x", &content_hash("[x"), "dns", Ok("port = 1")), Err(ConfigUpdateError::ConfigError(_))));
    let updated = update_config_section(current, &hash, "dns", Ok("port = 5353\n")).ok().unwrap();
    let doc: toml::Table = toml::from_str(&updated).unwrap();
    assert_eq!(doc["dns"]["port"].as_integer(), Some(5353));
    assert_eq!(doc["ui"]["theme"].as_str(), Some("dark"));
    let added = update_config_section(current, &hash, "metric", Ok("enable = true\n")).ok().unwrap();
    let doc: toml::Table = toml::from_str(&added).unwrap();
    assert_eq!(doc["metric"]["enable"].as_bool(), Some(true));
    assert_ne!(content_hash(&updated), hash);
}

#[test]
fn config_conflict_is_reported_before_a_serializer_error() {
    let current = "[dns]\nport = 53\n";
    let hash = content_hash(current);
    assert!(matches!(update_config_section(current, "stale", "dns", Err("unsupported value")), Err(ConfigUpdateError::ConfigConflict)));
    match update_config_section(current, &hash, "dns", Err("unsupported value")) {
        Err(ConfigUpdateError::ConfigError(m)) => assert_eq!(m, "unsupported value"),
        _ => panic!("a serializer error is a configuration error"),
    }
    assert!(matches!(update_config_section("[x", &content_hash("[x"), "dns", Err("unsupported value")), Err(ConfigUpdateError::ConfigError(m)) if m != "unsupported value"));
}

#[test]
fn test_program_defaults() {
    assert_eq!(dhcp_client_test::Args::default().iface_name, "ens4");
    let a = dhcp_v6_pd_test::Args::default();
    assert_eq!((a.dhcp_client_iface.as_str(), a.mac.as_str(), a.icmp_ra_iface.as_str()), ("ens6", "00:a0:98:39:32:f0", "veth0"));
    assert!(parse_mac(&a.mac).is_some());
    let a = icmp_sock_test::Args::default();
    assert_eq!((a.depend_iface.as_str(), a.iface_name.as_str()), ("veth0", "ens5"));
}
