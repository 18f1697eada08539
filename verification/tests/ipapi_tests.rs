use modsec_audit::ipapi::{
    count_groups, count_groups_in, ipv4_network_of, is_hex_group_text, is_ipv6_text,
    is_octet_text, IpApiCache, IpLookup,
};

#[test]
fn addresses_of_one_subnet_share_a_key_and_one_fetch() {
    assert_eq!(IpApiCache::key_for("203.0.113.10"), "203.0.113.0");
    assert_eq!(IpApiCache::key_for("203.0.113.200"), "203.0.113.0");
    let mut cache = IpApiCache::new();
    let mut fetches = 0;
    for ip in ["203.0.113.10", "203.0.113.200"] {
        match cache.get_ip_info(ip) {
            IpLookup::Cached(info) => assert_eq!(info, "blob"),
            IpLookup::Fetch { key, url } => {
                fetches += 1;
                assert_eq!(key, "203.0.113.0");
                assert_eq!(url, IpApiCache::request_url("203.0.113.0"));
                cache.store(key, "blob".to_string());
            },
        }
    }
    assert_eq!(fetches, 1);
    assert_eq!(cache.get_ip_info("203.0.113.0"), IpLookup::Cached("blob".to_string()));
    assert!(matches!(cache.get_ip_info("203.0.114.10"), IpLookup::Fetch { .. }));
}

#[test]
fn the_subnet_of_an_ipv4_address_has_a_zero_last_octet() {
    assert_eq!(IpApiCache::get_subnet_24("203.0.113.44").as_deref(), Some("203.0.113.0"));
    assert_eq!(IpApiCache::get_subnet_24("0.0.0.0").as_deref(), Some("0.0.0.0"));
    assert_eq!(IpApiCache::get_subnet_24("255.255.255.255").as_deref(), Some("255.255.255.0"));
    assert_eq!(IpApiCache::get_subnet_24("1.22.3.4").as_deref(), Some("1.22.3.0"));
}

#[test]
fn other_texts_are_their_own_key() {
    for ip in [
        "", "example.com", "1.2.3", "1.2.3.4.5", "fe80::1%eth0", "[::1]", "1:2:3:4:5:6:7",
        "1.2.3.", ".1.2.3", "1..2.3", "256.1.1.1", "1.1.1.256", "01.2.3.4", "1.2.3.04",
        "1.2.3.4 ", " 1.2.3.4", "1.2.3.-4", "1.2.3.+4", "1.2.3.4444", "1,2,3,4", "١.٢.٣.٤",
        "1.2.3.0x1",
    ] {
        assert_eq!(IpApiCache::get_subnet_24(ip), None, "on {:?}", ip);
        assert_eq!(IpApiCache::key_for(ip), ip);
    }
}

#[test]
fn an_ipv6_address_stands_for_its_own_subnet() {
    for ip in ["::1", "2001:db8::1", "2001:DB8::1", "::ffff:192.0.2.1", "::", "1:2:3:4:5:6:7:8"] {
        assert_eq!(IpApiCache::get_subnet_24(ip).as_deref(), Some(ip), "on {:?}", ip);
        assert_eq!(IpApiCache::key_for(ip), ip);
        assert_eq!(ipv4_network_of(ip), None);
    }
    let mut cache = IpApiCache::new();
    cache.store(IpApiCache::key_for("2001:db8::1"), "six".to_string());
    assert_eq!(cache.get_ip_info("2001:db8::1"), IpLookup::Cached("six".to_string()));
    assert!(matches!(cache.get_ip_info("2001:DB8::1"), IpLookup::Fetch { .. }));
}

#[test]
fn ipv6_addresses_are_lists_of_eight_groups_or_compressed() {
    for ip in [
        "::", "::1", "1::", "2001:db8::1", "2001:DB8::1", "fe80::1", "1:2:3:4:5:6:7:8",
        "0:0:0:0:0:0:0:0", "::ffff:192.0.2.1", "1:2:3:4:5:6:1.2.3.4", "1:2:3:4:5:6:7::",
        "::2:3:4:5:6:7:8", "1::8", "ffff:ffff:ffff:ffff:ffff:ffff:255.255.255.255",
        "FFFF:FFFF:FFFF:FFFF:FFFF:FFFF:FFFF:FFFF", "::1.2.3.4", "1:2:3:4:5::1.2.3.4", "0001:0002::",
        "00::", "::0000", "a:b:c:d:e:f:0:9", "1:2:3::6:7:8", "::0.0.0.0",
    ] {
        assert!(is_ipv6_text(ip), "on {:?}", ip);
    }
}

#[test]
fn other_texts_are_no_ipv6_addresses() {
    for ip in [
        "", ":", ":::", "::::", "1", "1:2", "1:2:3:4:5:6:7", "1:2:3:4:5:6:7:8:9", "1::2::3",
        "1:::2", "12345::", "::12345", "g::", "::g", "1:2:3:4:5:6:7:8::", "::1:2:3:4:5:6:7:8",
        "1:2:3:4:5:6:7::8", "1:2:3:4:5:6::1.2.3.4", "1.2.3.4::", "1.2.3.4", "::1.2.3.4:5",
        "1:2:3:4:5:1.2.3.4", "1:2:3:4:5:6:7:1.2.3.4", "1:2:3:4:5:6:7:8:1.2.3.4", "::01.2.3.4",
        "::1.2.3.256", "::1.2.3", "::1.2.3.4.5", "fe80::1%eth0", " ::1", "::1 ", "[::1]",
        ":1:2:3:4:5:6:7", "1:2:3:4:5:6:7:", ":1:2:3:4:5:6:7:8", "1:2:3:4:5:6:7:8:", "-1::",
        "+1::", "0x1::", "１::", "::１", "1:2:3:4:5:6:7:8 ", "1:2:3:4:5:6:7:88888",
    ] {
        assert!(!is_ipv6_text(ip), "on {:?}", ip);
        if ipv4_network_of(ip).is_none() {
            assert_eq!(IpApiCache::get_subnet_24(ip), None, "on {:?}", ip);
        }
    }
}

#[test]
fn groups_are_counted_up_to_a_limit() {
    assert_eq!(count_groups("1:2:3", false, 8), Some(3));
    assert_eq!(count_groups("1:2:3", false, 3), Some(3));
    assert_eq!(count_groups("1:2:3", false, 2), None);
    assert_eq!(count_groups("1", false, 0), None);
    assert_eq!(count_groups("ffff", true, 1), Some(1));
    assert_eq!(count_groups("1:1.2.3.4", true, 8), Some(3));
    assert_eq!(count_groups("1:1.2.3.4", true, 3), Some(3));
    assert_eq!(count_groups("1:1.2.3.4", true, 2), None);
    assert_eq!(count_groups("1:1.2.3.4", false, 8), None);
    assert_eq!(count_groups("1.2.3.4:1", true, 8), None);
    assert_eq!(count_groups("", true, 8), None);
    assert_eq!(count_groups("1:", true, 8), None);
    assert_eq!(count_groups(":1", true, 8), None);
    assert_eq!(count_groups("1::2", true, 8), None);
    assert_eq!(count_groups("1:2:3:4:5:6:7:8:9:a:b", false, usize::MAX), Some(11));
    assert_eq!(count_groups_in("", false, 0), Some(0));
    assert_eq!(count_groups_in("", true, 7), Some(0));
    assert_eq!(count_groups_in("1:2", false, 7), Some(2));
    assert_eq!(count_groups_in("1:2", false, 1), None);
    assert_eq!(count_groups_in("x", false, 7), None);
}

#[test]
fn hex_groups_have_one_to_four_hex_digits() {
    for (text, expected) in [
        ("0", true), ("f", true), ("F", true), ("09af", true), ("AFaf", true), ("0000", true),
        ("", false), ("00000", false), ("g", false), ("G", false), ("1g", false), ("/", false),
        (":", false), ("@", false), ("`", false), (" 1", false), ("1.", false), ("ａ", false),
    ] {
        assert_eq!(is_hex_group_text(text), expected, "on {:?}", text);
    }
}

#[test]
fn only_dot_decimal_addresses_have_a_subnet() {
    for (ip, expected) in [
        ("9.9.9.9", true), ("10.20.30.40", true), ("00.0.0.0", false), ("99.099.9.9", false),
        ("999.1.1.1", false), ("1.2.3.256", false), ("1.2.3.255", true), ("0.0.0.1", true),
    ] {
        assert_eq!(IpApiCache::get_subnet_24(ip).is_some(), expected, "on {:?}", ip);
        assert_eq!(ipv4_network_of(ip).is_some(), expected, "on {:?}", ip);
    }
}

#[test]
fn octets_are_canonical_decimals_up_to_255() {
    for (text, expected) in [
        ("0", true), ("9", true), ("10", true), ("255", true), ("199", true), ("256", false),
        ("00", false), ("01", false), ("000", false), ("", false), ("1000", false), ("0255", false),
        ("2a", false), ("-1", false), ("+1", false), (" 1", false), ("٣", false),
    ] {
        assert_eq!(is_octet_text(text), expected, "on {:?}", text);
    }
}

#[test]
fn the_lookup_address_names_key_and_fields() {
    assert_eq!(
        IpApiCache::request_url("203.0.113.0"),
        "http://ip-api.com/json/203.0.113.0?fields=query,status,message,continent,continentCode,country,countryCode,region,regionName,city,district,zip,lat,lon,timezone,offset,currency,isp,org,as,asname,mobile,proxy,hosting"
    );
    assert_eq!(IpApiCache::request_url(""), format!("http://ip-api.com/json/{}", &IpApiCache::request_url("")[23..]));
}

#[test]
fn the_cache_keeps_what_was_stored_last() {
    let mut cache = IpApiCache::new();
    assert_eq!(
        cache.get_ip_info("2001:db8::1"),
        IpLookup::Fetch { key: "2001:db8::1".to_string(), url: IpApiCache::request_url("2001:db8::1") }
    );
    cache.store("2001:db8::1".to_string(), "six".to_string());
    cache.store("10.0.0.0".to_string(), "ten".to_string());
    assert_eq!(cache.get_ip_info("2001:db8::1"), IpLookup::Cached("six".to_string()));
    assert_eq!(cache.get_ip_info("10.0.0.77"), IpLookup::Cached("ten".to_string()));
    cache.store("10.0.0.0".to_string(), "new".to_string());
    assert_eq!(cache.get_ip_info("10.0.0.1"), IpLookup::Cached("new".to_string()));
    assert!(matches!(cache.get_ip_info("2001:db8::2"), IpLookup::Fetch { .. }));
}
