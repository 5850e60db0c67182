use ws_gateway::config::{
    config_not_found, config_paths, default_cache_size_limit, default_cache_ttl, default_true,
    Config, NodeConfig,
};
use ws_gateway::dto::{PageVo, ResultVo};
use ws_gateway::http_util::{is_success, post_failure_message, PostFailure};
use ws_gateway::text::{clone_opt_text, clone_texts, contains_text, i64_text, push_decimal};

fn s(text: &str) -> String {
    text.to_string()
}

fn config(enabled: bool, ttl: u64, peers: Option<Vec<NodeConfig>>) -> Config {
    Config {
        db_url: s("postgres://db"),
        port: 8080,
        redis_url: s("redis://r"),
        redis_ws: s("redis://ws"),
        db_max_connections: 5,
        token_ex: 3600,
        local_cache_enabled: enabled,
        local_cache_ttl: ttl,
        node_token: s("own-secret"),
        app_ip: s("10.0.0.1"),
        node_config: peers,
    }
}

#[test]
fn defaults() {
    assert!(default_true());
    assert_eq!(default_cache_ttl(), 300);
    assert_eq!(default_cache_size_limit(), 100);
}

#[test]
fn cache_is_fresh_below_its_lifetime() {
    let c = config(true, 300, None);
    assert!(c.is_cache_fresh(0));
    assert!(c.is_cache_fresh(299));
    assert!(!c.is_cache_fresh(300));
    assert!(!c.is_cache_fresh(u64::MAX));
    assert!(!config(false, 300, None).is_cache_fresh(0));
    assert!(!config(true, 0, None).is_cache_fresh(0));
}

#[test]
fn candidate_paths_in_order() {
    assert_eq!(
        config_paths(&Some(s("/proj")), &Some(s("/opt/bin"))),
        vec![s("./config.yaml"), s("/proj/config.yaml"), s("/opt/bin/config.yaml")]
    );
    assert_eq!(config_paths(&None, &None), vec![s("./config.yaml"), s(""), s("")]);
    assert_eq!(
        config_paths(&None, &Some(s(""))),
        vec![s("./config.yaml"), s(""), s("/config.yaml")]
    );
}

#[test]
fn not_found_message_lists_paths() {
    assert_eq!(
        config_not_found(&vec![s("./config.yaml"), s(""), s("/opt/bin/config.yaml")]),
        "Config file not found. Tried:\n./config.yaml\n\n/opt/bin/config.yaml"
    );
    assert_eq!(config_not_found(&vec![]), "Config file not found. Tried:\n");
    assert_eq!(config_not_found(&vec![s("a")]), "Config file not found. Tried:\na");
}

#[test]
fn node_tokens_match_ip_and_port() {
    let peers = vec![
        NodeConfig { ip: s("a"), port: 1, token: s("t1") },
        NodeConfig { ip: s("b"), port: 1, token: s("t2") },
        NodeConfig { ip: s("a"), port: 2, token: s("t3") },
        NodeConfig { ip: s("a"), port: 1, token: s("t4") },
    ];
    let c = config(true, 300, Some(peers));
    assert_eq!(c.node_tokens(&s("a"), 1), vec![s("t1"), s("t4")]);
    assert_eq!(c.node_tokens(&s("b"), 1), vec![s("t2")]);
    assert!(c.node_tokens(&s("c"), 1).is_empty());
    assert!(config(true, 300, None).node_tokens(&s("a"), 1).is_empty());
}

#[test]
fn page_vo_new() {
    let page = PageVo::new(12, vec![1, 2, 3]);
    assert_eq!(page.total, 12);
    assert_eq!(page.list, vec![1, 2, 3]);
}

#[test]
fn result_vo_ok_with() {
    let answer = ResultVo::ok_with(5u8);
    assert_eq!(answer.code, 0);
    assert_eq!(answer.msg, "success");
    assert_eq!(answer.data, Some(5u8));
}

#[test]
fn result_vo_error() {
    let answer: ResultVo<()> = ResultVo::error(1, s("boom"));
    assert_eq!(answer.code, 1);
    assert_eq!(answer.msg, "boom");
    assert_eq!(answer.data, None);
}

#[test]
fn decimal_numerals() {
    for (n, text) in [(0u64, "0"), (9, "9"), (10, "10"), (99, "99"), (100, "100"), (65535, "65535"), (u64::MAX, "18446744073709551615")]
    {
        let mut out = s("p");
        push_decimal(&mut out, n);
        assert_eq!(out, format!("p{}", text));
    }
}

#[test]
fn text_list_helpers() {
    let v = vec![s("a"), s("b")];
    assert_eq!(clone_texts(&v), v);
    assert!(contains_text(&v, &s("b")));
    assert!(!contains_text(&v, &s("c")));
    assert!(!contains_text(&vec![], &s("")));
    assert_eq!(clone_opt_text(&Some(s("x"))), Some(s("x")));
    assert_eq!(clone_opt_text(&None), None);
}

#[test]
fn signed_decimal_numerals() {
    assert_eq!(i64_text(0), "0");
    assert_eq!(i64_text(7), "7");
    assert_eq!(i64_text(-7), "-7");
    assert_eq!(i64_text(1234567890), "1234567890");
    assert_eq!(i64_text(i64::MAX), "9223372036854775807");
    assert_eq!(i64_text(i64::MIN), "-9223372036854775808");
}

#[test]
fn status_codes_of_success() {
    assert!(!is_success(0));
    assert!(!is_success(199));
    assert!(is_success(200));
    assert!(is_success(204));
    assert!(is_success(299));
    assert!(!is_success(300));
    assert!(!is_success(404));
    assert!(!is_success(u16::MAX));
}

#[test]
fn post_failure_messages() {
    assert_eq!(
        post_failure_message(&PostFailure::Request(s("connection refused"))),
        "Request failed: connection refused"
    );
    assert_eq!(
        post_failure_message(&PostFailure::Parse(s("expected value"))),
        "Parse JSON failed: expected value"
    );
    assert_eq!(
        post_failure_message(&PostFailure::Status(s("404 Not Found"), s("nothing here"))),
        "HTTP 404 Not Found: nothing here"
    );
    assert_eq!(post_failure_message(&PostFailure::Status(s(""), s(""))), "HTTP : ");
}
