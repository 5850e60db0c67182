use ws_gateway::app_node::{AppNode, SessionUser};
use ws_gateway::config::{Config, NodeConfig};
use ws_gateway::message_vo::{MessageVO, NodeMessageVO, NodeTo, NodeToVo};
use ws_gateway::router::{
    add_remote_user, deliver_local, forward_nodes, message_push_handler, node_push_handler,
    node_push_url, push_handler, route_user, send_message, session_key,
};
use ws_gateway::session_manager::SessionManager;
use ws_gateway::ws_conn::PushRequest;

const HERE: &str = "10.0.0.1";
const PORT: u16 = 8080;

fn s(text: &str) -> String {
    text.to_string()
}

fn node(ip: &str, port: u16, session_id: &str) -> AppNode {
    AppNode::new(s(ip), port, s(session_id))
}

fn record(nodes: Vec<AppNode>) -> Option<SessionUser> {
    Some(SessionUser::new(nodes))
}

fn registry(ids: &[&str]) -> SessionManager<u32> {
    let mut manager = SessionManager::new();
    for (i, id) in ids.iter().enumerate() {
        manager.add_session(id.to_string(), i as u32);
    }
    manager
}

fn push(users: &[&str], message: &str) -> MessageVO {
    MessageVO {
        app_id: s("A"),
        app_token: s("secret"),
        message: s(message),
        user_ids: users.iter().map(|u| u.to_string()).collect(),
    }
}

fn bucket(ip: &str, port: u16, users: &[&str]) -> NodeToVo {
    NodeToVo::new(
        format!("http://{}:{}/api/node/push", ip, port),
        users.iter().map(|u| u.to_string()).collect(),
        s(ip),
        port,
    )
}

fn config(peers: Option<Vec<NodeConfig>>) -> Config {
    Config {
        db_url: s("postgres://db"),
        port: PORT,
        redis_url: s("redis://r"),
        redis_ws: s("redis://ws"),
        db_max_connections: 5,
        token_ex: 3600,
        local_cache_enabled: true,
        local_cache_ttl: 300,
        node_token: s("own-secret"),
        app_ip: s(HERE),
        node_config: peers,
    }
}

#[test]
fn session_key_has_documented_form() {
    assert_eq!(session_key(&s("A"), &s("U")), "app:A:user:U");
    assert_eq!(session_key(&s(""), &s("")), "app::user:");
    assert_eq!(session_key(&s("shop"), &s("user:7")), "app:shop:user:user:7");
}

#[test]
fn node_push_url_formats_ip_and_port() {
    assert_eq!(node_push_url(&s("10.0.0.2"), 8081), "http://10.0.0.2:8081/api/node/push");
    assert_eq!(node_push_url(&s("h"), 0), "http://h:0/api/node/push");
    assert_eq!(node_push_url(&s("h"), 7), "http://h:7/api/node/push");
    assert_eq!(node_push_url(&s("h"), 10), "http://h:10/api/node/push");
    assert_eq!(node_push_url(&s("h"), 65535), "http://h:65535/api/node/push");
    assert_eq!(node_push_url(&s("h"), 40009), "http://h:40009/api/node/push");
}

#[test]
fn node_push_url_differs_between_nodes() {
    assert_ne!(node_push_url(&s("h"), 80), node_push_url(&s("h"), 8));
    assert_ne!(node_push_url(&s("h:1"), 2), node_push_url(&s("h"), 12));
}

#[test]
fn node_message_init_has_no_destination() {
    let legs = NodeMessageVO::init(s("A"), s("secret"), s("hello"));
    assert_eq!(legs.app_id, "A");
    assert_eq!(legs.app_token, "secret");
    assert_eq!(legs.message, "hello");
    assert!(legs.node_to.is_empty());
}

#[test]
fn node_to_vo_new_keeps_fields() {
    let b = NodeToVo::new(s("http://x"), vec![s("u1")], s("x"), 1);
    assert_eq!(b.base_url, "http://x");
    assert_eq!(b.user_ids, vec![s("u1")]);
    assert_eq!(b.ip, "x");
    assert_eq!(b.port, 1);
    assert_eq!(b.clone(), b);
}

#[test]
fn add_remote_user_opens_then_merges_then_dedupes() {
    let mut node_to: Vec<NodeToVo> = Vec::new();
    add_remote_user(&mut node_to, &s("10.0.0.2"), 8080, &s("u1"));
    assert_eq!(node_to, vec![bucket("10.0.0.2", 8080, &["u1"])]);
    add_remote_user(&mut node_to, &s("10.0.0.2"), 8080, &s("u2"));
    assert_eq!(node_to, vec![bucket("10.0.0.2", 8080, &["u1", "u2"])]);
    add_remote_user(&mut node_to, &s("10.0.0.2"), 8080, &s("u1"));
    assert_eq!(node_to, vec![bucket("10.0.0.2", 8080, &["u1", "u2"])]);
    add_remote_user(&mut node_to, &s("10.0.0.3"), 8080, &s("u1"));
    assert_eq!(
        node_to,
        vec![bucket("10.0.0.2", 8080, &["u1", "u2"]), bucket("10.0.0.3", 8080, &["u1"])]
    );
    add_remote_user(&mut node_to, &s("10.0.0.2"), 8081, &s("u1"));
    assert_eq!(node_to.len(), 3);
    assert_eq!(node_to[2], bucket("10.0.0.2", 8081, &["u1"]));
}

#[test]
fn add_remote_user_joins_first_of_two_destinations_with_one_address() {
    let mut node_to = vec![bucket("n", 1, &["a"]), bucket("n", 1, &["b"])];
    add_remote_user(&mut node_to, &s("n"), 1, &s("c"));
    assert_eq!(node_to, vec![bucket("n", 1, &["a", "c"]), bucket("n", 1, &["b"])]);
    add_remote_user(&mut node_to, &s("n"), 1, &s("b"));
    assert_eq!(node_to, vec![bucket("n", 1, &["a", "c"]), bucket("n", 1, &["b"])]);
}

#[test]
fn send_message_tells_whether_connection_is_live() {
    let manager = registry(&["c1"]);
    assert!(send_message(&s("c1"), &manager));
    assert!(!send_message(&s("c2"), &manager));
}

#[test]
fn deliver_local_picks_live_and_drops_stale() {
    let manager = registry(&["c1", "c3"]);
    let mut rec = SessionUser::new(vec![
        node(HERE, PORT, "c1"),
        node(HERE, PORT, "c2"),
        node("10.0.0.2", PORT, "c9"),
        node(HERE, PORT, "c3"),
    ]);
    let found = deliver_local(&mut rec, &s(HERE), PORT, &manager);
    assert_eq!(found.session_ids, vec![s("c1"), s("c3")]);
    assert!(found.is_update);
    assert_eq!(
        rec.nodes,
        vec![node(HERE, PORT, "c1"), node("10.0.0.2", PORT, "c9"), node(HERE, PORT, "c3")]
    );
}

#[test]
fn deliver_local_twice_to_two_entries_of_one_connection() {
    let manager = registry(&["c1"]);
    let mut rec = SessionUser::new(vec![node(HERE, PORT, "c1"), node(HERE, PORT, "c1")]);
    let found = deliver_local(&mut rec, &s(HERE), PORT, &manager);
    assert_eq!(found.session_ids, vec![s("c1"), s("c1")]);
    assert!(!found.is_update);
}

#[test]
fn route_user_splits_local_and_remote() {
    let manager = registry(&["c1"]);
    let mut legs = NodeMessageVO::init(s("A"), s("secret"), s("hello"));
    let mut rec = SessionUser::new(vec![
        node("10.0.0.2", PORT, "r1"),
        node(HERE, PORT, "c1"),
        node("10.0.0.2", PORT, "r2"),
        node(HERE, PORT, "gone"),
    ]);
    let found = route_user(&mut legs, &s("u1"), &mut rec, &s(HERE), PORT, &manager);
    assert_eq!(found.session_ids, vec![s("c1")]);
    assert!(found.is_update);
    assert_eq!(legs.node_to, vec![bucket("10.0.0.2", PORT, &["u1"])]);
    assert_eq!(legs.app_id, "A");
    assert_eq!(legs.app_token, "secret");
    assert_eq!(legs.message, "hello");
    assert_eq!(
        rec.nodes,
        vec![node("10.0.0.2", PORT, "r1"), node(HERE, PORT, "c1"), node("10.0.0.2", PORT, "r2")]
    );
}

#[test]
fn route_user_with_empty_record_is_a_no_op() {
    let manager = registry(&["c1"]);
    let mut legs = NodeMessageVO::init(s("A"), s("secret"), s("hello"));
    let mut rec = SessionUser::new(vec![]);
    let found = route_user(&mut legs, &s("u1"), &mut rec, &s(HERE), PORT, &manager);
    assert!(found.session_ids.is_empty());
    assert!(!found.is_update);
    assert!(legs.node_to.is_empty());
    assert!(rec.nodes.is_empty());
}

#[test]
fn push_fans_out_two_remote_users_and_one_local() {
    let manager = registry(&["c3"]);
    let body = push(&["u1", "u2", "u3"], "hello");
    let mut records = vec![
        record(vec![node("10.0.0.2", PORT, "a1")]),
        record(vec![node("10.0.0.2", PORT, "a2")]),
        record(vec![node(HERE, PORT, "c3")]),
    ];
    let outcome = message_push_handler(&body, &mut records, &s(HERE), PORT, &manager);
    assert_eq!(outcome.node_list.node_to, vec![bucket("10.0.0.2", PORT, &["u1", "u2"])]);
    assert_eq!(outcome.session_ids, vec![s("c3")]);
    assert_eq!(outcome.updated, vec![false, false, false]);
    assert_eq!(outcome.node_list.app_id, "A");
    assert_eq!(outcome.node_list.app_token, "secret");
    assert_eq!(outcome.node_list.message, "hello");
}

#[test]
fn push_to_ghost_user_forwards_nothing() {
    let manager = registry(&["c1"]);
    let body = push(&["ghost"], "hello");
    let mut records: Vec<Option<SessionUser>> = vec![None];
    let outcome = message_push_handler(&body, &mut records, &s(HERE), PORT, &manager);
    assert!(outcome.node_list.node_to.is_empty());
    assert!(outcome.session_ids.is_empty());
    assert_eq!(outcome.updated, vec![false]);
    assert_eq!(records, vec![None]);
    let calls = forward_nodes(&outcome.node_list, &config(None), &body);
    assert!(calls.is_empty());
}

#[test]
fn push_to_user_with_empty_record_is_a_no_op() {
    let manager = registry(&["c1"]);
    let body = push(&["u1"], "hello");
    let mut records = vec![record(vec![])];
    let outcome = message_push_handler(&body, &mut records, &s(HERE), PORT, &manager);
    assert!(outcome.node_list.node_to.is_empty());
    assert!(outcome.session_ids.is_empty());
    assert_eq!(outcome.updated, vec![false]);
    assert_eq!(records, vec![record(vec![])]);
}

#[test]
fn push_without_fetched_records_counts_users_as_offline() {
    let manager = registry(&["c1"]);
    let body = push(&["u1", "u2"], "hello");
    let mut records: Vec<Option<SessionUser>> = vec![];
    let outcome = message_push_handler(&body, &mut records, &s(HERE), PORT, &manager);
    assert!(outcome.node_list.node_to.is_empty());
    assert!(outcome.session_ids.is_empty());
    assert_eq!(outcome.updated, vec![false, false]);
    assert!(records.is_empty());
}

#[test]
fn push_without_users() {
    let manager = registry(&["c1"]);
    let body = push(&[], "hello");
    let mut records = vec![record(vec![node(HERE, PORT, "gone")])];
    let outcome = message_push_handler(&body, &mut records, &s(HERE), PORT, &manager);
    assert!(outcome.node_list.node_to.is_empty());
    assert!(outcome.session_ids.is_empty());
    assert!(outcome.updated.is_empty());
    assert_eq!(records, vec![record(vec![node(HERE, PORT, "gone")])]);
}

#[test]
fn push_heals_stale_local_entry() {
    let manager = registry(&[]);
    let body = push(&["u1"], "hello");
    let mut records = vec![record(vec![node(HERE, PORT, "gone"), node("10.0.0.2", PORT, "r")])];
    let outcome = message_push_handler(&body, &mut records, &s(HERE), PORT, &manager);
    assert_eq!(outcome.updated, vec![true]);
    assert!(outcome.session_ids.is_empty());
    assert_eq!(records, vec![record(vec![node("10.0.0.2", PORT, "r")])]);
    assert_eq!(outcome.node_list.node_to, vec![bucket("10.0.0.2", PORT, &["u1"])]);
}

#[test]
fn push_merges_two_entries_on_one_remote_node() {
    let manager = registry(&[]);
    let body = push(&["u1"], "hello");
    let mut records =
        vec![record(vec![node("10.0.0.2", PORT, "tab1"), node("10.0.0.2", PORT, "tab2")])];
    let outcome = message_push_handler(&body, &mut records, &s(HERE), PORT, &manager);
    assert_eq!(outcome.node_list.node_to, vec![bucket("10.0.0.2", PORT, &["u1"])]);
    let calls = forward_nodes(&outcome.node_list, &config(None), &body);
    assert_eq!(calls.len(), 1);
}

#[test]
fn push_merges_two_users_on_one_remote_node() {
    let manager = registry(&[]);
    let body = push(&["u1", "u2"], "hello");
    let mut records = vec![
        record(vec![node("10.0.0.3", 9000, "x")]),
        record(vec![node("10.0.0.3", 9000, "y")]),
    ];
    let outcome = message_push_handler(&body, &mut records, &s(HERE), PORT, &manager);
    assert_eq!(outcome.node_list.node_to, vec![bucket("10.0.0.3", 9000, &["u1", "u2"])]);
    let calls = forward_nodes(&outcome.node_list, &config(None), &body);
    assert_eq!(calls.len(), 1);
    assert_eq!(calls[0].url, "http://10.0.0.3:9000/api/node/push");
    assert_eq!(calls[0].data.node.user_ids, vec![s("u1"), s("u2")]);
}

#[test]
fn push_keeps_one_destination_per_remote_node() {
    let manager = registry(&["c1"]);
    let body = push(&["u1", "u2", "u3"], "m");
    let mut records = vec![
        record(vec![node("b", 1, "x"), node("c", 1, "y")]),
        record(vec![node("c", 1, "z"), node(HERE, PORT, "c1")]),
        record(vec![node("b", 2, "w"), node("b", 1, "v")]),
    ];
    let outcome = message_push_handler(&body, &mut records, &s(HERE), PORT, &manager);
    assert_eq!(
        outcome.node_list.node_to,
        vec![bucket("b", 1, &["u1", "u3"]), bucket("c", 1, &["u1", "u2"]), bucket("b", 2, &["u3"])]
    );
    assert_eq!(outcome.session_ids, vec![s("c1")]);
}

#[test]
fn push_same_address_other_port_is_remote() {
    let manager = registry(&["c1"]);
    let body = push(&["u1"], "m");
    let mut records = vec![record(vec![node(HERE, 9999, "c1")])];
    let outcome = message_push_handler(&body, &mut records, &s(HERE), PORT, &manager);
    assert_eq!(outcome.node_list.node_to, vec![bucket(HERE, 9999, &["u1"])]);
    assert!(outcome.session_ids.is_empty());
    assert_eq!(outcome.updated, vec![false]);
}

#[test]
fn node_push_delivers_locally_and_never_forwards() {
    let manager = registry(&["c1"]);
    let body = NodeTo {
        node: bucket(HERE, PORT, &["u1", "u2"]),
        app_id: s("A"),
        app_token: s("secret"),
        message: s("hello"),
    };
    let mut records = vec![
        record(vec![node(HERE, PORT, "c1"), node("10.0.0.9", PORT, "elsewhere")]),
        record(vec![node(HERE, PORT, "gone")]),
    ];
    let outcome = node_push_handler(&body, &mut records, &s(HERE), PORT, &manager);
    assert_eq!(outcome.session_ids, vec![s("c1")]);
    assert_eq!(outcome.updated, vec![false, true]);
    assert_eq!(
        records,
        vec![
            record(vec![node(HERE, PORT, "c1"), node("10.0.0.9", PORT, "elsewhere")]),
            record(vec![]),
        ]
    );
}

#[test]
fn node_push_for_absent_record_is_a_no_op() {
    let manager = registry(&["c1"]);
    let body = NodeTo {
        node: bucket(HERE, PORT, &["ghost"]),
        app_id: s("A"),
        app_token: s("secret"),
        message: s("hello"),
    };
    let mut records: Vec<Option<SessionUser>> = vec![None];
    let outcome = node_push_handler(&body, &mut records, &s(HERE), PORT, &manager);
    assert!(outcome.session_ids.is_empty());
    assert_eq!(outcome.updated, vec![false]);
    assert_eq!(records, vec![None]);
}

#[test]
fn forward_nodes_builds_one_call_per_destination() {
    let body = push(&["u1", "u2"], "hello");
    let mut legs = NodeMessageVO::init(s("A"), s("secret"), s("hello"));
    legs.node_to.push(bucket("10.0.0.2", 8080, &["u1"]));
    legs.node_to.push(bucket("10.0.0.3", 8081, &["u1", "u2"]));
    let peers = vec![
        NodeConfig { ip: s("10.0.0.3"), port: 8081, token: s("t3") },
        NodeConfig { ip: s("10.0.0.2"), port: 8080, token: s("t2") },
        NodeConfig { ip: s("10.0.0.2"), port: 8081, token: s("wrong-port") },
        NodeConfig { ip: s("10.0.0.2"), port: 8080, token: s("t2-again") },
    ];
    let calls = forward_nodes(&legs, &config(Some(peers)), &body);
    assert_eq!(calls.len(), 2);
    assert_eq!(calls[0].url, "http://10.0.0.2:8080/api/node/push");
    assert_eq!(
        calls[0].headers,
        vec![
            (s("loc_to_token"), s("t2")),
            (s("loc_to_token"), s("t2-again")),
            (s("Content-Type"), s("application/json")),
        ]
    );
    assert_eq!(calls[0].data.node, bucket("10.0.0.2", 8080, &["u1"]));
    assert_eq!(calls[0].data.app_id, "A");
    assert_eq!(calls[0].data.app_token, "secret");
    assert_eq!(calls[0].data.message, "hello");
    assert_eq!(calls[1].url, "http://10.0.0.3:8081/api/node/push");
    assert_eq!(
        calls[1].headers,
        vec![(s("loc_to_token"), s("t3")), (s("Content-Type"), s("application/json"))]
    );
    assert_eq!(calls[1].data.node, bucket("10.0.0.3", 8081, &["u1", "u2"]));
}

#[test]
fn forward_nodes_without_configured_peers_sends_no_secret() {
    let body = push(&["u1"], "hello");
    let mut legs = NodeMessageVO::init(s("A"), s("secret"), s("hello"));
    legs.node_to.push(bucket("10.0.0.2", 8080, &["u1"]));
    let calls = forward_nodes(&legs, &config(None), &body);
    assert_eq!(calls.len(), 1);
    assert_eq!(calls[0].headers, vec![(s("Content-Type"), s("application/json"))]);
    let calls = forward_nodes(&legs, &config(Some(vec![])), &body);
    assert_eq!(calls[0].headers, vec![(s("Content-Type"), s("application/json"))]);
}

fn direct(client_id: Option<&str>, data: Option<&str>) -> PushRequest {
    PushRequest {
        code: 0,
        message: None,
        data: data.map(|d| d.to_string()),
        client_id: client_id.map(|c| c.to_string()),
        user_id: None,
        app_id: None,
    }
}

#[test]
fn push_handler_delivers_to_the_named_connection() {
    let manager = registry(&["c0", "c1"]);
    let body = direct(Some("c1"), Some("hi"));
    assert_eq!(push_handler(&body, &manager), Some((&1u32, &s("hi"))));
}

#[test]
fn push_handler_delivers_nothing_otherwise() {
    let manager = registry(&["c0", "c1"]);
    assert_eq!(push_handler(&direct(Some("c9"), Some("hi")), &manager), None);
    assert_eq!(push_handler(&direct(None, Some("hi")), &manager), None);
    assert_eq!(push_handler(&direct(Some("c1"), None), &manager), None);
}
