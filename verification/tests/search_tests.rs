use modsec_audit::parser::AuditGroup;
use modsec_audit::search::{
    any_folded_rule_matches, any_rule_matches, matches_all_fields, status_matches, SearchFilter,
};
use modsec_audit::timestamp::Timestamp;

fn chain(id: &str, domain: &str, ip: &str, status: Option<u16>, rules: &[&str]) -> AuditGroup {
    AuditGroup {
        base_id: id.to_string(),
        entries: Vec::new(),
        first_timestamp: Timestamp { secs: 0, nanos: 0 },
        domain: domain.to_string(),
        client_ip: ip.to_string(),
        http_status: status,
        primary_rule_ids: rules.iter().map(|r| r.to_string()).collect(),
        file_path: None,
    }
}

#[test]
fn queries_parse_into_filters() {
    assert_eq!(SearchFilter::parse(""), SearchFilter::Everything);
    assert_eq!(SearchFilter::parse("domain:Example"), SearchFilter::Domain("example".to_string()));
    assert_eq!(SearchFilter::parse(" IP : 203.0.113 "), SearchFilter::ClientIp("203.0.113".to_string()));
    assert_eq!(SearchFilter::parse("rule:942"), SearchFilter::RuleId("942".to_string()));
    assert_eq!(SearchFilter::parse("RuleId:942"), SearchFilter::RuleId("942".to_string()));
    assert_eq!(SearchFilter::parse("id:942"), SearchFilter::RuleId("942".to_string()));
    assert_eq!(SearchFilter::parse("auditid:AbC"), SearchFilter::AuditId("abc".to_string()));
    assert_eq!(SearchFilter::parse("status:404"), SearchFilter::Status("404".to_string()));
    assert_eq!(SearchFilter::parse("HTTP:5"), SearchFilter::Status("5".to_string()));
    assert_eq!(SearchFilter::parse("ip:2001:DB8::1"), SearchFilter::ClientIp("2001:db8::1".to_string()));
    assert_eq!(SearchFilter::parse("status:"), SearchFilter::Status(String::new()));
}

#[test]
fn other_queries_match_all_fields() {
    assert_eq!(SearchFilter::parse("Example"), SearchFilter::AnyField("example".to_string()));
    assert_eq!(SearchFilter::parse("  Foo Bar "), SearchFilter::AnyField("foo bar".to_string()));
    assert_eq!(SearchFilter::parse("host:x"), SearchFilter::AnyField("host:x".to_string()));
    assert_eq!(SearchFilter::parse(" Port:80 "), SearchFilter::AnyField("port:80".to_string()));
    assert_eq!(SearchFilter::parse(":x"), SearchFilter::AnyField(":x".to_string()));
    assert_eq!(SearchFilter::parse("   "), SearchFilter::AnyField(String::new()));
    assert_eq!(SearchFilter::from_lowered("domain:a:b"), SearchFilter::Domain("a:b".to_string()));
}

#[test]
fn status_query_matches_the_decimal_status() {
    let filter = SearchFilter::parse("status:404");
    assert!(filter.accepts(&chain("a", "d", "1.1.1.1", Some(404), &[])));
    assert!(!filter.accepts(&chain("a", "d", "1.1.1.1", Some(200), &[])));
    assert!(!filter.accepts(&chain("a404", "404.example", "10.4.0.4", None, &["404"])));
    assert!(!filter.accepts(&chain("a", "d", "1.1.1.1", Some(440), &[])));
    let partial = SearchFilter::parse("status:40");
    assert!(partial.accepts(&chain("a", "d", "1.1.1.1", Some(404), &[])));
    assert!(partial.accepts(&chain("a", "d", "1.1.1.1", Some(140), &[])));
    assert!(!partial.accepts(&chain("a", "d", "1.1.1.1", Some(504), &[])));
    assert!(status_matches(Some(65535), "6553"));
    assert!(status_matches(Some(7), "7"));
    assert!(!status_matches(Some(7), "07"));
    assert!(status_matches(Some(0), "0"));
    assert!(!status_matches(None, ""));
    assert!(status_matches(Some(200), ""));
}

#[test]
fn ip_query_matches_the_client_address() {
    let filter = SearchFilter::parse("ip:203.0.113");
    assert!(filter.accepts(&chain("a", "d", "203.0.113.10", None, &[])));
    assert!(filter.accepts(&chain("a", "d", "203.0.113.200", None, &[])));
    assert!(!filter.accepts(&chain("a", "203.0.113.example", "198.51.100.7", None, &["203"])));
    assert!(!filter.accepts(&chain("a", "d", "203.0.11.3", None, &[])));
}

#[test]
fn a_field_query_matches_without_regard_to_case() {
    let c = chain("abc", "unknown", "2001:DB8::1", None, &["Rule-9A", "942100"]);
    assert!(SearchFilter::parse("ip:2001:DB8").accepts(&c));
    assert!(SearchFilter::parse("ip:2001:db8").accepts(&c));
    assert!(SearchFilter::parse("IP: db8::1 ").accepts(&c));
    assert!(!SearchFilter::parse("ip:db9").accepts(&c));
    assert!(SearchFilter::parse("rule:9a").accepts(&c));
    assert!(SearchFilter::parse("id:RULE-9").accepts(&c));
    assert!(SearchFilter::parse("ruleid:2100").accepts(&c));
    assert!(!SearchFilter::parse("rule:9b").accepts(&c));
    assert!(SearchFilter::ClientIp("2001:db8".to_string()).accepts(&c));
    assert!(!SearchFilter::ClientIp("2001:DB8".to_string()).accepts(&c));
    assert!(SearchFilter::RuleId("rule".to_string()).accepts(&c));
    assert!(!SearchFilter::RuleId("Rule".to_string()).accepts(&c));
    let rules = vec!["Rule-9A".to_string()];
    assert!(any_folded_rule_matches(&rules, "rule-9a"));
    assert!(!any_folded_rule_matches(&rules, "Rule-9A"));
    assert!(!any_rule_matches(&rules, "rule-9a"));
    assert!(any_folded_rule_matches(&rules, ""));
    assert!(!any_folded_rule_matches(&Vec::new(), ""));
}

#[test]
fn the_match_across_all_fields_takes_address_and_rules_as_written() {
    let c = chain("abc", "unknown", "2001:DB8::1", None, &["Rule-9A"]);
    assert!(!SearchFilter::parse("db8").accepts(&c));
    assert!(!SearchFilter::parse("rule-9").accepts(&c));
    assert!(SearchFilter::parse("2001").accepts(&c));
    assert!(SearchFilter::parse("ule-9").accepts(&c));
    assert!(SearchFilter::parse("UNKNOWN").accepts(&c));
    assert!(SearchFilter::parse("ABC").accepts(&c));
}

#[test]
fn domain_and_chain_id_match_without_regard_to_case() {
    let c = chain("AbC123", "Shop.EXAMPLE.org", "10.0.0.1", Some(301), &["942100", "949110"]);
    assert!(SearchFilter::parse("domain:example").accepts(&c));
    assert!(SearchFilter::parse("DOMAIN:SHOP").accepts(&c));
    assert!(!SearchFilter::parse("domain:abc").accepts(&c));
    assert!(SearchFilter::parse("auditid:abc1").accepts(&c));
    assert!(!SearchFilter::parse("auditid:shop").accepts(&c));
    assert!(SearchFilter::parse("rule:9491").accepts(&c));
    assert!(SearchFilter::parse("id:100").accepts(&c));
    assert!(!SearchFilter::parse("ruleid:301").accepts(&c));
    assert!(SearchFilter::parse("http:30").accepts(&c));
}

#[test]
fn plain_queries_look_into_every_field() {
    let c = chain("AbC123", "Shop.EXAMPLE.org", "10.0.0.1", Some(301), &["942100", "949110"]);
    for q in ["shop", "EXAMPLE", "10.0.0", "bc12", "9491", "301", " example ", "foo:bar"] {
        let expected = q != "foo:bar";
        assert_eq!(SearchFilter::parse(q).accepts(&c), expected, "query {:?}", q);
    }
    assert!(!SearchFilter::parse("nothing").accepts(&c));
    assert!(SearchFilter::Everything.accepts(&c));
    assert!(matches_all_fields(&c, ""));
    assert!(matches_all_fields(&c, "org"));
    assert!(!matches_all_fields(&c, "ORG"));
    let bare = chain("", "", "", None, &[]);
    assert!(!matches_all_fields(&bare, "x"));
    assert!(matches_all_fields(&bare, ""));
}

#[test]
fn rule_identifiers_match_one_by_one() {
    let rules = vec!["942100".to_string(), "12".to_string()];
    assert!(any_rule_matches(&rules, "942"));
    assert!(any_rule_matches(&rules, "12"));
    assert!(any_rule_matches(&rules, ""));
    assert!(!any_rule_matches(&rules, "10012"));
    assert!(!any_rule_matches(&Vec::new(), ""));
}
