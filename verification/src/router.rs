use crate::app_node::{has_stale, is_on_node, retain_live, AppNodeView, SessionUser};
use crate::config::{peer_tokens, Config, NodeConfigView};
use crate::message_vo::{
    buckets_of, MessageVO, MessageVOView, NodeMessageVO, NodeMessageVOView, NodeTo, NodeToView,
    NodeToVo, NodeToVoView,
};
use crate::session_manager::SessionManager;
use crate::text::{contains_text, decimal, push_decimal, texts};
use crate::ws_conn::PushRequest;
use vstd::prelude::*;
use vstd::string::*;

verus! {

/// The key under which the session record of user `user_id` of application
/// `app_id` is kept in the shared store.
pub open spec fn session_key_of(app_id: Seq<char>, user_id: Seq<char>) -> Seq<char> {
    "app:"@ + app_id + ":user:"@ + user_id
}

/// The address of the ingress endpoint of the node `(ip, port)`.
pub open spec fn push_url_of(ip: Seq<char>, port: u16) -> Seq<char> {
    "http://"@ + ip + ":"@ + decimal(port as nat) + "/api/node/push"@
}

/// The key under which the session record of user `user_id` of application
/// `app_id` is kept in the shared store.
pub fn session_key(app_id: &String, user_id: &String) -> (key: String)
    ensures
        key@ == session_key_of(app_id@, user_id@),
{
    let mut key = String::from_str("app:");
    key.append(app_id.as_str());
    key.append(":user:");
    key.append(user_id.as_str());
    key
}

/// The address of the ingress endpoint of the node `(ip, port)`.
pub fn node_push_url(ip: &String, port: u16) -> (url: String)
    ensures
        url@ == push_url_of(ip@, port),
{
    let mut url = String::from_str("http://");
    url.append(ip.as_str());
    url.append(":");
    push_decimal(&mut url, port as u64);
    url.append("/api/node/push");
    url
}

/// Some destination with address `url` already lists `user`.
pub open spec fn is_listed(buckets: Seq<NodeToVoView>, url: Seq<char>, user: Seq<char>) -> bool {
    exists|i: int|
        0 <= i < buckets.len() && (#[trigger] buckets[i]).base_url == url
            && buckets[i].user_ids.contains(user)
}

/// `at` is the first destination with address `url`.
pub open spec fn is_first_bucket(buckets: Seq<NodeToVoView>, url: Seq<char>, at: int) -> bool {
    &&& 0 <= at < buckets.len()
    &&& buckets[at].base_url == url
    &&& forall|j: int| 0 <= j < at ==> (#[trigger] buckets[j]).base_url != url
}

/// Some destination has the address `url`.
pub open spec fn has_bucket(buckets: Seq<NodeToVoView>, url: Seq<char>) -> bool {
    exists|i: int| 0 <= i < buckets.len() && (#[trigger] buckets[i]).base_url == url
}

/// The index of the first destination with address `url`.
pub open spec fn first_bucket(buckets: Seq<NodeToVoView>, url: Seq<char>) -> int {
    choose|at: int| is_first_bucket(buckets, url, at)
}

/// The destination `b` with `user` added at the end of its list.
pub open spec fn with_user(b: NodeToVoView, user: Seq<char>) -> NodeToVoView {
    NodeToVoView { user_ids: b.user_ids.push(user), ..b }
}

/// The destinations after `user` has been found on the remote node
/// `(ip, port)`: unchanged where a destination with that node's address lists
/// the user already; else the user joins the first destination with that
/// address; else a destination for that node is added at the end, with the
/// user alone in it.
pub open spec fn enlist(
    buckets: Seq<NodeToVoView>,
    ip: Seq<char>,
    port: u16,
    user: Seq<char>,
) -> Seq<NodeToVoView> {
    let url = push_url_of(ip, port);
    if is_listed(buckets, url, user) {
        buckets
    } else if has_bucket(buckets, url) {
        let at = first_bucket(buckets, url);
        buckets.update(at, with_user(buckets[at], user))
    } else {
        buckets.push(NodeToVoView { base_url: url, user_ids: seq![user], ip, port })
    }
}

fn find_listed(node_to: &Vec<NodeToVo>, url: &String, user_id: &String) -> (listed: bool)
    ensures
        listed == is_listed(buckets_of(node_to@), url@, user_id@),
{
    let mut i: usize = 0;
    while i < node_to.len()
        invariant
            i <= node_to.len(),
            forall|j: int|
                0 <= j < i ==> !((#[trigger] buckets_of(node_to@)[j]).base_url == url@
                    && buckets_of(node_to@)[j].user_ids.contains(user_id@)),
        decreases node_to.len() - i,
    {
        if node_to[i].base_url == *url && contains_text(&node_to[i].user_ids, user_id) {
            assert(buckets_of(node_to@)[i as int].base_url == url@);
            return true;
        }
        i += 1;
    }
    false
}

fn find_bucket(node_to: &Vec<NodeToVo>, url: &String) -> (slot: Option<usize>)
    ensures
        match slot {
            Some(at) => is_first_bucket(buckets_of(node_to@), url@, at as int) && first_bucket(
                buckets_of(node_to@),
                url@,
            ) == at,
            None => !has_bucket(buckets_of(node_to@), url@),
        },
{
    let mut i: usize = 0;
    while i < node_to.len()
        invariant
            i <= node_to.len(),
            forall|j: int| 0 <= j < i ==> (#[trigger] buckets_of(node_to@)[j]).base_url != url@,
        decreases node_to.len() - i,
    {
        if node_to[i].base_url == *url {
            proof {
                let buckets = buckets_of(node_to@);
                assert(is_first_bucket(buckets, url@, i as int));
                let at = first_bucket(buckets, url@);
                assert(is_first_bucket(buckets, url@, at));
                if at < i {
                    assert(buckets[at].base_url != url@);
                }
                if i < at {
                    assert(buckets[i as int].base_url != url@);
                }
            }
            return Some(i);
        }
        i += 1;
    }
    None
}

/// Records that `user_id` has a session on the remote node `(ip, port)`.
pub fn add_remote_user(node_to: &mut Vec<NodeToVo>, ip: &String, port: u16, user_id: &String)
    ensures
        buckets_of(final(node_to)@) == enlist(buckets_of(old(node_to)@), ip@, port, user_id@),
{
    let url = node_push_url(ip, port);
    let ghost before = buckets_of(node_to@);
    if find_listed(node_to, &url, user_id) {
        return ;
    }
    match find_bucket(node_to, &url) {
        Some(at) => {
            node_to[at].user_ids.push(user_id.clone());
            assert(buckets_of(node_to@) =~= before.update(
                at as int,
                with_user(before[at as int], user_id@),
            )) by {
                assert(texts(node_to[at as int].user_ids@) =~= before[at as int].user_ids.push(
                    user_id@,
                ));
            }
        },
        None => {
            let mut user_ids: Vec<String> = Vec::new();
            user_ids.push(user_id.clone());
            assert(texts(user_ids@) =~= seq![user_id@]);
            node_to.push(NodeToVo::new(url, user_ids, ip.clone(), port));
            assert(buckets_of(node_to@) =~= before.push(
                NodeToVoView {
                    base_url: push_url_of(ip@, port),
                    user_ids: seq![user_id@],
                    ip: ip@,
                    port,
                },
            ));
        },
    }
}

/// The destinations after every entry of `nodes` that lies on another node
/// than `(ip, port)` has been recorded for `user`, entry by entry.
pub open spec fn enlist_remote(
    buckets: Seq<NodeToVoView>,
    user: Seq<char>,
    nodes: Seq<AppNodeView>,
    ip: Seq<char>,
    port: u16,
) -> Seq<NodeToVoView>
    decreases nodes.len(),
{
    if nodes.len() == 0 {
        buckets
    } else {
        let before = enlist_remote(buckets, user, nodes.drop_last(), ip, port);
        let n = nodes.last();
        if is_on_node(n, ip, port) {
            before
        } else {
            enlist(before, n.ip, n.port, user)
        }
    }
}

/// The connections of node `(ip, port)` that `nodes` names and that are
/// `live`, one for each such entry, in the order of the entries.
pub open spec fn live_local_sessions(
    nodes: Seq<AppNodeView>,
    ip: Seq<char>,
    port: u16,
    live: Set<Seq<char>>,
) -> Seq<Seq<char>> {
    nodes.filter(|n: AppNodeView| is_on_node(n, ip, port) && live.contains(n.session_id)).map_values(
        |n: AppNodeView| n.session_id,
    )
}

/// What routing one user's record on this node comes to: the local
/// connections that get the message, and whether the record lost entries and
/// has to be written back.
#[derive(Debug, PartialEq, Eq)]
pub struct LocalDelivery {
    pub session_ids: Vec<String>,
    pub is_update: bool,
}

/// Whether `session_id` names a live connection of this node, so that a
/// message for it can be handed to its handle.
pub fn send_message<H>(session_id: &String, manager: &SessionManager<H>) -> (sent: bool)
    ensures
        sent == manager@.contains_key(session_id@),
{
    manager.get_session(session_id.as_str()).is_some()
}

/// Delivers on this node `(ip, port)`: picks the live local connections that
/// `session_user` names, and drops its stale local entries.
pub fn deliver_local<H>(
    session_user: &mut SessionUser,
    ip: &String,
    port: u16,
    manager: &SessionManager<H>,
) -> (found: LocalDelivery)
    ensures
        texts(found.session_ids@) == live_local_sessions(
            old(session_user)@,
            ip@,
            port,
            manager@.dom(),
        ),
        final(session_user)@ == retain_live(old(session_user)@, ip@, port, manager@.dom()),
        found.is_update == has_stale(old(session_user)@, ip@, port, manager@.dom()),
{
    let ghost nodes = session_user@;
    let ghost live = manager@.dom();
    let ghost wanted = |n: AppNodeView| is_on_node(n, ip@, port) && live.contains(n.session_id);
    let ghost id_of = |n: AppNodeView| n.session_id;
    let mut session_ids: Vec<String> = Vec::new();
    let mut i: usize = 0;
    assert(nodes.take(0).filter(wanted) =~= Seq::<AppNodeView>::empty());
    assert(texts(session_ids@) =~= nodes.take(0).filter(wanted).map_values(id_of));
    while i < session_user.nodes.len()
        invariant
            i <= session_user.nodes.len(),
            session_user@ == nodes,
            live == manager@.dom(),
            wanted == (|n: AppNodeView| is_on_node(n, ip@, port) && live.contains(n.session_id)),
            id_of == (|n: AppNodeView| n.session_id),
            texts(session_ids@) == nodes.take(i as int).filter(wanted).map_values(id_of),
        decreases session_user.nodes.len() - i,
    {
        let node = &session_user.nodes[i];
        let ghost head = nodes.take(i as int);
        proof {
            assert(nodes.take(i + 1) =~= head.push(nodes[i as int]));
            assert(head.push(nodes[i as int]).drop_last() =~= head);
            reveal_with_fuel(Seq::filter, 2);
            assert(node@ == nodes[i as int]);
        }
        if node.is_on(ip, port) && send_message(&node.session_id, manager) {
            let ghost ids_before = texts(session_ids@);
            session_ids.push(node.session_id.clone());
            proof {
                assert(nodes.take(i + 1).filter(wanted) == head.filter(wanted).push(
                    nodes[i as int],
                ));
                assert(texts(session_ids@) =~= ids_before.push(nodes[i as int].session_id));
                assert(head.filter(wanted).push(nodes[i as int]).map_values(id_of)
                    =~= head.filter(wanted).map_values(id_of).push(nodes[i as int].session_id));
            }
        } else {
            proof {
                assert(nodes.take(i + 1).filter(wanted) == head.filter(wanted));
            }
        }
        i += 1;
    }
    assert(nodes.take(i as int) =~= nodes);
    let is_update = session_user.cleanup_stale_nodes(ip, port, manager);
    LocalDelivery { session_ids, is_update }
}

/// Routes a push for one user on the node `(ip, port)`: every entry of the
/// user's record that lies on another node is recorded in `node_list`, the
/// live local connections are picked for delivery, and the stale local
/// entries are dropped from the record.
pub fn route_user<H>(
    node_list: &mut NodeMessageVO,
    user_id: &String,
    session_user: &mut SessionUser,
    ip: &String,
    port: u16,
    manager: &SessionManager<H>,
) -> (found: LocalDelivery)
    ensures
        final(node_list)@ == (NodeMessageVOView {
            node_to: enlist_remote(
                old(node_list)@.node_to,
                user_id@,
                old(session_user)@,
                ip@,
                port,
            ),
            ..old(node_list)@
        }),
        texts(found.session_ids@) == live_local_sessions(
            old(session_user)@,
            ip@,
            port,
            manager@.dom(),
        ),
        final(session_user)@ == retain_live(old(session_user)@, ip@, port, manager@.dom()),
        found.is_update == has_stale(old(session_user)@, ip@, port, manager@.dom()),
{
    let ghost nodes = session_user@;
    let ghost start = node_list@;
    let mut i: usize = 0;
    while i < session_user.nodes.len()
        invariant
            i <= session_user.nodes.len(),
            session_user@ == nodes,
            node_list@ == (NodeMessageVOView {
                node_to: enlist_remote(start.node_to, user_id@, nodes.take(i as int), ip@, port),
                ..start
            }),
        decreases session_user.nodes.len() - i,
    {
        let node = &session_user.nodes[i];
        proof {
            assert(nodes.take(i + 1).drop_last() =~= nodes.take(i as int));
            assert(node@ == nodes[i as int]);
        }
        if !node.is_on(ip, port) {
            add_remote_user(&mut node_list.node_to, &node.ip, node.port, user_id);
        }
        i += 1;
    }
    assert(nodes.take(i as int) =~= nodes);
    deliver_local(session_user, ip, port, manager)
}

/// The entries of a record that may be absent: none where it is absent.
pub open spec fn nodes_of(record: Option<SessionUser>) -> Seq<AppNodeView> {
    match record {
        Some(r) => r@,
        None => Seq::<AppNodeView>::empty(),
    }
}

/// The entries of the record that was fetched for the user at position `i`:
/// none where no record was fetched for that position.
pub open spec fn fetched(records: Seq<Option<SessionUser>>, i: int) -> Seq<AppNodeView> {
    if 0 <= i < records.len() {
        nodes_of(records[i])
    } else {
        Seq::<AppNodeView>::empty()
    }
}

/// The destinations of a push after its first `n` users have been routed on
/// the node `(ip, port)`, starting without any destination.
pub open spec fn push_buckets(
    users: Seq<Seq<char>>,
    records: Seq<Option<SessionUser>>,
    ip: Seq<char>,
    port: u16,
    n: nat,
) -> Seq<NodeToVoView>
    decreases n,
{
    if n == 0 {
        Seq::<NodeToVoView>::empty()
    } else {
        enlist_remote(
            push_buckets(users, records, ip, port, (n - 1) as nat),
            users[n - 1],
            fetched(records, n - 1),
            ip,
            port,
        )
    }
}

/// The local connections that get the message of a push after its first `n`
/// users have been routed on the node `(ip, port)`, user by user.
pub open spec fn push_deliveries(
    records: Seq<Option<SessionUser>>,
    ip: Seq<char>,
    port: u16,
    live: Set<Seq<char>>,
    n: nat,
) -> Seq<Seq<char>>
    decreases n,
{
    if n == 0 {
        Seq::<Seq<char>>::empty()
    } else {
        push_deliveries(records, ip, port, live, (n - 1) as nat) + live_local_sessions(
            fetched(records, n - 1),
            ip,
            port,
            live,
        )
    }
}

/// How the fetched records stand after a push for `n` users has been routed
/// on the node `(ip, port)`: each record of those users has lost its stale
/// local entries and nothing else, and an absent record is still absent.
pub open spec fn records_healed(
    before: Seq<Option<SessionUser>>,
    after: Seq<Option<SessionUser>>,
    ip: Seq<char>,
    port: u16,
    live: Set<Seq<char>>,
    n: nat,
) -> bool {
    &&& after.len() == before.len()
    &&& forall|j: int|
        0 <= j < before.len() ==> (#[trigger] after[j]).is_some() == before[j].is_some()
    &&& forall|j: int|
        0 <= j < before.len() && j < n ==> nodes_of(#[trigger] after[j]) == retain_live(
            nodes_of(before[j]),
            ip,
            port,
            live,
        )
    &&& forall|j: int| n <= j < before.len() ==> (#[trigger] after[j]) == before[j]
}

/// Which of the first `n` users' records have to be written back: those that
/// held a stale local entry.
pub open spec fn updates_marked(
    updated: Seq<bool>,
    records: Seq<Option<SessionUser>>,
    ip: Seq<char>,
    port: u16,
    live: Set<Seq<char>>,
    n: nat,
) -> bool {
    &&& updated.len() == n
    &&& forall|j: int|
        0 <= j < n ==> (#[trigger] updated[j]) == has_stale(fetched(records, j), ip, port, live)
}

/// What routing a push on this node comes to.
#[derive(Debug, PartialEq, Eq)]
pub struct PushOutcome {
    /// The remote legs: one destination for each peer node that holds a
    /// session of one of the users.
    pub node_list: NodeMessageVO,
    /// The local connections that get the message.
    pub session_ids: Vec<String>,
    /// For each user, whether the user's record changed and has to be
    /// written back.
    pub updated: Vec<bool>,
}

/// What delivering a forwarded push on this node comes to.
#[derive(Debug, PartialEq, Eq)]
pub struct IngressOutcome {
    /// The local connections that get the message.
    pub session_ids: Vec<String>,
    /// For each user, whether the user's record changed and has to be
    /// written back.
    pub updated: Vec<bool>,
}

/// Routes a push from a backend service on the node `(ip, port)`.
///
/// `records` holds, user by user in the order of `body.user_ids`, the session
/// record that the shared store holds for that user, `None` where it holds
/// none; a user for whom it holds no position counts as having none.
pub fn message_push_handler<H>(
    body: &MessageVO,
    records: &mut Vec<Option<SessionUser>>,
    ip: &String,
    port: u16,
    manager: &SessionManager<H>,
) -> (outcome: PushOutcome)
    ensures
        outcome.node_list@ == (NodeMessageVOView {
            app_id: body.app_id@,
            app_token: body.app_token@,
            message: body.message@,
            node_to: push_buckets(
                body@.user_ids,
                old(records)@,
                ip@,
                port,
                body.user_ids.len() as nat,
            ),
        }),
        texts(outcome.session_ids@) == push_deliveries(
            old(records)@,
            ip@,
            port,
            manager@.dom(),
            body.user_ids.len() as nat,
        ),
        records_healed(
            old(records)@,
            final(records)@,
            ip@,
            port,
            manager@.dom(),
            body.user_ids.len() as nat,
        ),
        updates_marked(
            outcome.updated@,
            old(records)@,
            ip@,
            port,
            manager@.dom(),
            body.user_ids.len() as nat,
        ),
{
    let mut node_list = NodeMessageVO::init(
        body.app_id.clone(),
        body.app_token.clone(),
        body.message.clone(),
    );
    let mut session_ids: Vec<String> = Vec::new();
    let mut updated: Vec<bool> = Vec::new();
    let ghost start = records@;
    let ghost live = manager@.dom();
    let ghost users = body@.user_ids;
    assert(buckets_of(node_list.node_to@) =~= Seq::<NodeToVoView>::empty());
    assert(texts(session_ids@) =~= Seq::<Seq<char>>::empty());
    let mut i: usize = 0;
    while i < body.user_ids.len()
        invariant
            i <= body.user_ids.len(),
            start == old(records)@,
            live == manager@.dom(),
            users == body@.user_ids,
            node_list@ == (NodeMessageVOView {
                app_id: body.app_id@,
                app_token: body.app_token@,
                message: body.message@,
                node_to: push_buckets(users, start, ip@, port, i as nat),
            }),
            texts(session_ids@) == push_deliveries(start, ip@, port, live, i as nat),
            records_healed(start, records@, ip@, port, live, i as nat),
            updates_marked(updated@, start, ip@, port, live, i as nat),
        decreases body.user_ids.len() - i,
    {
        let ghost ids_before = texts(session_ids@);
        let ghost records_before = records@;
        let mut is_update = false;
        assert(users[i as int] == body.user_ids[i as int]@);
        if i < records.len() {
            assert(records_before[i as int] == start[i as int]);
            match &mut records[i] {
                Some(session_user) => {
                    let mut found = route_user(
                        &mut node_list,
                        &body.user_ids[i],
                        session_user,
                        ip,
                        port,
                        manager,
                    );
                    let ghost found_ids = texts(found.session_ids@);
                    session_ids.append(&mut found.session_ids);
                    assert(texts(session_ids@) =~= ids_before + found_ids);
                    is_update = found.is_update;
                },
                None => {
                    proof {
                        lemma_route_nothing(
                            push_buckets(users, start, ip@, port, i as nat),
                            users[i as int],
                            ip@,
                            port,
                            live,
                        );
                        assert(texts(session_ids@) =~= ids_before + Seq::<Seq<char>>::empty());
                    }
                },
            }
        } else {
            proof {
                lemma_route_nothing(
                    push_buckets(users, start, ip@, port, i as nat),
                    users[i as int],
                    ip@,
                    port,
                    live,
                );
                assert(texts(session_ids@) =~= ids_before + Seq::<Seq<char>>::empty());
            }
        }
        updated.push(is_update);
        i += 1;
    }
    PushOutcome { node_list, session_ids, updated }
}

/// Routing a push to a user without entries changes nothing: no destination
/// is added, no connection gets the message, and no entry is stale.
pub proof fn lemma_route_nothing(
    buckets: Seq<NodeToVoView>,
    user: Seq<char>,
    ip: Seq<char>,
    port: u16,
    live: Set<Seq<char>>,
)
    ensures
        enlist_remote(buckets, user, Seq::<AppNodeView>::empty(), ip, port) == buckets,
        live_local_sessions(Seq::<AppNodeView>::empty(), ip, port, live) == Seq::<
            Seq<char>,
        >::empty(),
        retain_live(Seq::<AppNodeView>::empty(), ip, port, live) == Seq::<AppNodeView>::empty(),
        !has_stale(Seq::<AppNodeView>::empty(), ip, port, live),
{
    let none = Seq::<AppNodeView>::empty();
    assert(live_local_sessions(none, ip, port, live) =~= Seq::<Seq<char>>::empty());
    assert(retain_live(none, ip, port, live) =~= none);
}

/// Delivers a push that a peer forwarded to this node `(ip, port)`. The users
/// are those of `body.node`; their records are handed in as for
/// [`message_push_handler`]. Nothing is forwarded again: entries on other
/// nodes are left alone.
pub fn node_push_handler<H>(
    body: &NodeTo,
    records: &mut Vec<Option<SessionUser>>,
    ip: &String,
    port: u16,
    manager: &SessionManager<H>,
) -> (outcome: IngressOutcome)
    ensures
        texts(outcome.session_ids@) == push_deliveries(
            old(records)@,
            ip@,
            port,
            manager@.dom(),
            body.node.user_ids.len() as nat,
        ),
        records_healed(
            old(records)@,
            final(records)@,
            ip@,
            port,
            manager@.dom(),
            body.node.user_ids.len() as nat,
        ),
        updates_marked(
            outcome.updated@,
            old(records)@,
            ip@,
            port,
            manager@.dom(),
            body.node.user_ids.len() as nat,
        ),
{
    let mut session_ids: Vec<String> = Vec::new();
    let mut updated: Vec<bool> = Vec::new();
    let ghost start = records@;
    let ghost live = manager@.dom();
    let count = body.node.user_ids.len();
    assert(texts(session_ids@) =~= Seq::<Seq<char>>::empty());
    let mut i: usize = 0;
    while i < count
        invariant
            i <= count,
            start == old(records)@,
            live == manager@.dom(),
            texts(session_ids@) == push_deliveries(start, ip@, port, live, i as nat),
            records_healed(start, records@, ip@, port, live, i as nat),
            updates_marked(updated@, start, ip@, port, live, i as nat),
        decreases count - i,
    {
        let ghost ids_before = texts(session_ids@);
        let ghost records_before = records@;
        let mut is_update = false;
        if i < records.len() {
            assert(records_before[i as int] == start[i as int]);
            match &mut records[i] {
                Some(session_user) => {
                    let mut found = deliver_local(session_user, ip, port, manager);
                    let ghost found_ids = texts(found.session_ids@);
                    session_ids.append(&mut found.session_ids);
                    assert(texts(session_ids@) =~= ids_before + found_ids);
                    is_update = found.is_update;
                },
                None => {
                    proof {
                        lemma_route_nothing(Seq::empty(), Seq::empty(), ip@, port, live);
                        assert(texts(session_ids@) =~= ids_before + Seq::<Seq<char>>::empty());
                    }
                },
            }
        } else {
            proof {
                lemma_route_nothing(Seq::empty(), Seq::empty(), ip@, port, live);
                assert(texts(session_ids@) =~= ids_before + Seq::<Seq<char>>::empty());
            }
        }
        updated.push(is_update);
        i += 1;
    }
    IngressOutcome { session_ids, updated }
}

/// The character sequences of a list of header lines.
pub open spec fn header_pairs(headers: Seq<(String, String)>) -> Seq<(Seq<char>, Seq<char>)> {
    headers.map_values(|h: (String, String)| (h.0@, h.1@))
}

/// The header lines of a forwarded push: the secret of every configured peer
/// that has the destination's address, then the content type.
pub open spec fn forward_headers(tokens: Seq<Seq<char>>) -> Seq<(Seq<char>, Seq<char>)> {
    tokens.map_values(|t: Seq<char>| ("loc_to_token"@, t)).push(
        ("Content-Type"@, "application/json"@),
    )
}

/// One request of the inter-node push, ready to be sent.
#[derive(Debug, PartialEq, Eq)]
pub struct ForwardCall {
    pub url: String,
    pub headers: Vec<(String, String)>,
    pub data: NodeTo,
}

/// The request that forwards `body` to the destination `node`, as `peers`
/// lets this node authenticate to it.
pub open spec fn forward_call_ok(
    call: ForwardCall,
    node: NodeToVoView,
    body: MessageVOView,
    peers: Seq<NodeConfigView>,
) -> bool {
    &&& call.url@ == node.base_url
    &&& header_pairs(call.headers@) == forward_headers(peer_tokens(peers, node.ip, node.port))
    &&& call.data@ == (NodeToView {
        node,
        app_id: body.app_id,
        app_token: body.app_token,
        message: body.message,
    })
}

fn forward_header_lines(tokens: Vec<String>) -> (headers: Vec<(String, String)>)
    ensures
        header_pairs(headers@) == forward_headers(texts(tokens@)),
{
    let mut headers: Vec<(String, String)> = Vec::new();
    let mut i: usize = 0;
    while i < tokens.len()
        invariant
            i <= tokens.len(),
            headers.len() == i,
            forall|j: int|
                0 <= j < i ==> (#[trigger] headers[j]).0@ == "loc_to_token"@ && headers[j].1@
                    == tokens[j]@,
        decreases tokens.len() - i,
    {
        headers.push((String::from_str("loc_to_token"), tokens[i].clone()));
        i += 1;
    }
    headers.push((String::from_str("Content-Type"), String::from_str("application/json")));
    assert(header_pairs(headers@) =~= forward_headers(texts(tokens@)));
    headers
}

/// The requests that forward a push to its remote destinations: one for each
/// destination of `node_list`, in order.
pub fn forward_nodes(node_list: &NodeMessageVO, node_config: &Config, body: &MessageVO) -> (calls:
    Vec<ForwardCall>)
    ensures
        calls.len() == node_list.node_to.len(),
        forall|i: int|
            0 <= i < calls.len() ==> forward_call_ok(
                #[trigger] calls[i],
                node_list@.node_to[i],
                body@,
                node_config.peers(),
            ),
{
    let mut calls: Vec<ForwardCall> = Vec::new();
    let mut i: usize = 0;
    while i < node_list.node_to.len()
        invariant
            i <= node_list.node_to.len(),
            calls.len() == i,
            forall|j: int|
                0 <= j < i ==> forward_call_ok(
                    #[trigger] calls[j],
                    node_list@.node_to[j],
                    body@,
                    node_config.peers(),
                ),
        decreases node_list.node_to.len() - i,
    {
        let node = &node_list.node_to[i];
        let headers = forward_header_lines(node_config.node_tokens(&node.ip, node.port));
        let data = NodeTo {
            node: node.clone(),
            app_id: body.app_id.clone(),
            app_token: body.app_token.clone(),
            message: body.message.clone(),
        };
        let call = ForwardCall { url: node.base_url.clone(), headers, data };
        assert(forward_call_ok(call, node_list@.node_to[i as int], body@, node_config.peers()));
        calls.push(call);
        i += 1;
    }
    calls
}

/// The body names a connection of this node and carries a text for it.
pub open spec fn is_deliverable<H>(body: PushRequest, manager: SessionManager<H>) -> bool {
    &&& body.client_id.is_some()
    &&& body.data.is_some()
    &&& manager@.contains_key(body.client_id.unwrap()@)
}

/// A push to one connection: the handle of the connection that `body`
/// names and the text for it, where the connection is live and the body
/// carries a text; nothing is delivered otherwise.
pub fn push_handler<'a, H>(body: &'a PushRequest, manager: &'a SessionManager<H>) -> (delivery:
    Option<(&'a H, &'a String)>)
    ensures
        delivery.is_some() == is_deliverable(*body, *manager),
        delivery.is_some() ==> *delivery.unwrap().0 == manager@[body.client_id.unwrap()@]
            && *delivery.unwrap().1 == body.data.unwrap(),
{
    match (&body.client_id, &body.data) {
        (Some(client_id), Some(data)) => match manager.get_session(client_id.as_str()) {
            Some(addr) => Some((addr, data)),
            None => None,
        },
        _ => None,
    }
}

} // verus!
