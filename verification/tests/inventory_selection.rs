use proxy_speedtest::evaluator::ProxyEndpoint;
use proxy_speedtest::inventory::{
    accepts, check_patterns, choose_endpoints, first_rejection, is_eligible, is_local_address,
    select_endpoints, Inbound, PatternError,
};

fn inbound(kind: &str, tag: &str, port: u16, listen: Option<&str>) -> Inbound {
    Inbound {
        inbound_type: Some(kind.to_string()),
        tag: Some(tag.to_string()),
        listen_port: Some(port),
        listen: listen.map(|s| s.to_string()),
    }
}

fn endpoint(tag: &str, port: u16) -> ProxyEndpoint {
    ProxyEndpoint { tag: tag.to_string(), port }
}

fn patterns(list: &[&str]) -> Vec<String> {
    list.iter().map(|s| s.to_string()).collect()
}

#[test]
fn local_addresses_are_recognised() {
    assert!(is_local_address(&"127.0.0.1".to_string()));
    assert!(is_local_address(&"::1".to_string()));
    assert!(is_local_address(&"localhost".to_string()));
    assert!(!is_local_address(&"0.0.0.0".to_string()));
    assert!(!is_local_address(&"".to_string()));
}

#[test]
fn eligibility_needs_socks_tag_port_and_local_address() {
    assert!(is_eligible(&inbound("socks", "a", 1, None)));
    assert!(is_eligible(&inbound("socks", "a", 1, Some("::1"))));
    assert!(!is_eligible(&inbound("http", "a", 1, None)));
    assert!(!is_eligible(&inbound("socks", "a", 1, Some("192.168.1.2"))));
    let mut no_tag = inbound("socks", "a", 1, None);
    no_tag.tag = None;
    assert!(!is_eligible(&no_tag));
    let mut no_port = inbound("socks", "a", 1, None);
    no_port.listen_port = None;
    assert!(!is_eligible(&no_port));
    let mut no_type = inbound("socks", "a", 1, None);
    no_type.inbound_type = None;
    assert!(!is_eligible(&no_type));
}

#[test]
fn without_patterns_every_tag_is_accepted() {
    assert_eq!(accepts(&vec![], "anything"), Ok(true));
    assert_eq!(check_patterns(&vec![]), None);
}

#[test]
fn every_pattern_must_match() {
    assert_eq!(accepts(&patterns(&["^jp", "\\d+$"]), "jp-tokyo-01"), Ok(true));
    assert_eq!(accepts(&patterns(&["^jp", "\\d+$"]), "jp-tokyo"), Ok(false));
    assert_eq!(accepts(&patterns(&["^jp", "\\d+$"]), "us-west-01"), Ok(false));
    assert_eq!(accepts(&patterns(&["tokyo"]), "jp-tokyo-01"), Ok(true));
    assert_eq!(accepts(&patterns(&["tokyo"]), "tokyo"), Ok(true));
    assert_eq!(accepts(&patterns(&["^tokyo$"]), "jp-tokyo-01"), Ok(false));
}

#[test]
fn broken_pattern_is_reported() {
    let list = patterns(&["ok", "foo(bar"]);
    let error = check_patterns(&list).unwrap();
    assert_eq!(error.pattern, "foo(bar");
    assert!(!error.detail.is_empty());
    let error = accepts(&patterns(&["foo(bar"]), "x").unwrap_err();
    assert_eq!(error.pattern, "foo(bar");
    assert_eq!(check_patterns(&patterns(&["a", "b+"])), None);
}

#[test]
fn selection_keeps_matching_local_socks_inbounds_in_order() {
    let inbounds = vec![
        inbound("socks", "jp-1", 1081, None),
        inbound("http", "jp-2", 1082, None),
        inbound("socks", "us-1", 1083, Some("127.0.0.1")),
        inbound("socks", "jp-3", 1084, Some("10.0.0.1")),
        inbound("socks", "jp-4", 1085, Some("localhost")),
    ];
    assert_eq!(
        select_endpoints(&inbounds, &vec![]),
        Ok(vec![endpoint("jp-1", 1081), endpoint("us-1", 1083), endpoint("jp-4", 1085)])
    );
    assert_eq!(
        select_endpoints(&inbounds, &patterns(&["^jp"])),
        Ok(vec![endpoint("jp-1", 1081), endpoint("jp-4", 1085)])
    );
    assert_eq!(
        select_endpoints(&inbounds, &patterns(&["^jp", "4"])),
        Ok(vec![endpoint("jp-4", 1085)])
    );
    assert_eq!(select_endpoints(&inbounds, &patterns(&["^de"])), Ok(vec![]));
}

#[test]
fn selection_reports_a_broken_pattern_even_without_inbounds() {
    let error = select_endpoints(&vec![], &patterns(&["[a-"])).unwrap_err();
    assert_eq!(error.pattern, "[a-");
    assert_eq!(select_endpoints(&vec![], &vec![]), Ok(vec![]));
}

#[test]
fn chosen_endpoints_follow_the_verdicts() {
    let mut no_port = inbound("socks", "c", 3, None);
    no_port.listen_port = None;
    let inbounds = vec![
        inbound("socks", "a", 1, None),
        inbound("socks", "b", 2, None),
        no_port,
        inbound("http", "d", 4, None),
        inbound("socks", "e", 5, None),
    ];
    assert_eq!(
        choose_endpoints(&inbounds, &vec![true, false, true, true, false]),
        vec![endpoint("a", 1), endpoint("d", 4)]
    );
    assert_eq!(
        choose_endpoints(&inbounds, &vec![false, true]),
        vec![endpoint("b", 2)]
    );
    assert_eq!(choose_endpoints(&inbounds, &vec![]), vec![]);
    assert_eq!(choose_endpoints(&vec![], &vec![true]), vec![]);
}

#[test]
fn first_rejection_reports_the_first_pattern_with_a_reason() {
    let list = patterns(&["a", "b(", "c[", "d"]);
    let faults = vec![None, Some("unclosed group".to_string()), Some("unclosed class".to_string())];
    assert_eq!(
        first_rejection(&list, &faults),
        Some(PatternError { pattern: "b(".to_string(), detail: "unclosed group".to_string() })
    );
    let late = vec![None, None, None, Some("late".to_string())];
    assert_eq!(
        first_rejection(&list, &late),
        Some(PatternError { pattern: "d".to_string(), detail: "late".to_string() })
    );
}

#[test]
fn first_rejection_reports_nothing_without_a_reason() {
    let list = patterns(&["a", "b"]);
    assert_eq!(first_rejection(&list, &vec![None, None]), None);
    assert_eq!(first_rejection(&list, &vec![]), None);
    assert_eq!(first_rejection(&list, &vec![None]), None);
    assert_eq!(first_rejection(&vec![], &vec![Some("x".to_string())]), None);
    assert_eq!(first_rejection(&list, &vec![None, None, Some("beyond".to_string())]), None);
}

#[test]
fn check_patterns_reports_the_first_of_several_broken_patterns() {
    let error = check_patterns(&patterns(&["fine", "one(", "two["])).unwrap();
    assert_eq!(error.pattern, "one(");
    let error = check_patterns(&patterns(&["two[", "one("])).unwrap();
    assert_eq!(error.pattern, "two[");
}
