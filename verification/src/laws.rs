use crate::app_node::{
    has_stale, is_on_node, is_stale, lemma_without_session_absent, lemma_without_session_at,
    names_session, retain_live, without_session, AppNodeView, SessionUser,
};
use crate::message_vo::NodeToVoView;
use crate::router::{
    enlist, enlist_remote, fetched, first_bucket, has_bucket, is_first_bucket, is_listed,
    live_local_sessions, push_buckets, push_deliveries, push_url_of, with_user,
};
use crate::ws_conn::joined_record;
use crate::text::{decimal, digit_char};
use vstd::prelude::*;

verus! {

/// Dropping the stale entries keeps exactly the entries that are not stale:
/// an entry is in the result if and only if it was in the record and is not
/// stale.
pub proof fn lemma_retain_live_keeps(
    nodes: Seq<AppNodeView>,
    ip: Seq<char>,
    port: u16,
    live: Set<Seq<char>>,
    n: AppNodeView,
)
    ensures
        retain_live(nodes, ip, port, live).contains(n) <==> nodes.contains(n) && !is_stale(
            n,
            ip,
            port,
            live,
        ),
{
    let keep = |n: AppNodeView| !is_stale(n, ip, port, live);
    let kept = nodes.filter(keep);
    if kept.contains(n) {
        nodes.lemma_filter_contains_rev(keep, n);
        let i = choose|i: int| 0 <= i < kept.len() && kept[i] == n;
        nodes.lemma_filter_pred(keep, i);
    }
    if nodes.contains(n) && !is_stale(n, ip, port, live) {
        let i = choose|i: int| 0 <= i < nodes.len() && nodes[i] == n;
        nodes.lemma_filter_contains(keep, i);
    }
}

/// Self-healing: once the stale entries have been dropped, no entry of the
/// record is stale.
pub proof fn lemma_retain_live_heals(
    nodes: Seq<AppNodeView>,
    ip: Seq<char>,
    port: u16,
    live: Set<Seq<char>>,
)
    ensures
        !has_stale(retain_live(nodes, ip, port, live), ip, port, live),
{
    let keep = |n: AppNodeView| !is_stale(n, ip, port, live);
    let kept = nodes.filter(keep);
    assert forall|i: int| 0 <= i < kept.len() implies !is_stale(
        #[trigger] kept[i],
        ip,
        port,
        live,
    ) by {
        nodes.lemma_filter_pred(keep, i);
    }
}

/// A record changes when its stale entries are dropped if and only if it
/// holds a stale entry; it then gets shorter. A record without stale entries
/// is left exactly as it is.
pub proof fn lemma_retain_live_changes(
    nodes: Seq<AppNodeView>,
    ip: Seq<char>,
    port: u16,
    live: Set<Seq<char>>,
)
    ensures
        retain_live(nodes, ip, port, live).len() <= nodes.len(),
        has_stale(nodes, ip, port, live) <==> retain_live(nodes, ip, port, live).len()
            < nodes.len(),
        !has_stale(nodes, ip, port, live) ==> retain_live(nodes, ip, port, live) == nodes,
    decreases nodes.len(),
{
    let keep = |n: AppNodeView| !is_stale(n, ip, port, live);
    reveal(Seq::filter);
    if nodes.len() > 0 {
        let rest = nodes.drop_last();
        lemma_retain_live_changes(rest, ip, port, live);
        if has_stale(rest, ip, port, live) {
            let w = choose|w: int| 0 <= w < rest.len() && is_stale(#[trigger] rest[w], ip, port, live);
            assert(is_stale(nodes[w], ip, port, live));
        }
        if is_stale(nodes.last(), ip, port, live) {
            assert(is_stale(nodes[nodes.len() - 1], ip, port, live));
        }
        if has_stale(nodes, ip, port, live) {
            let w = choose|w: int|
                0 <= w < nodes.len() && is_stale(#[trigger] nodes[w], ip, port, live);
            if w < rest.len() {
                assert(is_stale(rest[w], ip, port, live));
            }
        }
        if !has_stale(nodes, ip, port, live) {
            assert(rest.filter(keep).push(nodes.last()) =~= nodes);
        }
    }
}

/// Dropping the stale entries a second time changes nothing.
pub proof fn lemma_retain_live_idempotent(
    nodes: Seq<AppNodeView>,
    ip: Seq<char>,
    port: u16,
    live: Set<Seq<char>>,
)
    ensures
        retain_live(retain_live(nodes, ip, port, live), ip, port, live) == retain_live(
            nodes,
            ip,
            port,
            live,
        ),
{
    lemma_retain_live_heals(nodes, ip, port, live);
    lemma_retain_live_changes(retain_live(nodes, ip, port, live), ip, port, live);
}

/// Entries on other nodes are never dropped: a record all of whose entries
/// lie elsewhere is left as it is.
pub proof fn lemma_retain_live_spares_remote(
    nodes: Seq<AppNodeView>,
    ip: Seq<char>,
    port: u16,
    live: Set<Seq<char>>,
)
    requires
        forall|i: int| 0 <= i < nodes.len() ==> !is_on_node(#[trigger] nodes[i], ip, port),
    ensures
        retain_live(nodes, ip, port, live) == nodes,
{
    lemma_retain_live_changes(nodes, ip, port, live);
}

/// The destinations are as a fan-out needs them: no two of them have the
/// same address, none lists a user twice, none is without users, and each
/// has the address of the ingress endpoint of its node.
pub open spec fn fanout_ok(buckets: Seq<NodeToVoView>) -> bool {
    &&& forall|i: int, j: int|
        0 <= i < j < buckets.len() ==> (#[trigger] buckets[i]).base_url != (
        #[trigger] buckets[j]).base_url
    &&& forall|i: int|
        0 <= i < buckets.len() ==> (#[trigger] buckets[i]).user_ids.no_duplicates()
    &&& forall|i: int| 0 <= i < buckets.len() ==> (#[trigger] buckets[i]).user_ids.len() > 0
    &&& forall|i: int|
        0 <= i < buckets.len() ==> (#[trigger] buckets[i]).base_url == push_url_of(
            buckets[i].ip,
            buckets[i].port,
        )
}

/// Some entry of `nodes` lies on another node than `(ip, port)`, and that
/// node's ingress endpoint has the address `url`.
pub open spec fn has_remote_entry(
    nodes: Seq<AppNodeView>,
    ip: Seq<char>,
    port: u16,
    url: Seq<char>,
) -> bool {
    exists|i: int|
        0 <= i < nodes.len() && !is_on_node(#[trigger] nodes[i], ip, port) && push_url_of(
            nodes[i].ip,
            nodes[i].port,
        ) == url
}

/// One of the first `n` users is `user`, and the record fetched for that
/// position holds an entry on another node than `(ip, port)` whose ingress
/// endpoint has the address `url`.
pub open spec fn is_remote_target(
    users: Seq<Seq<char>>,
    records: Seq<Option<SessionUser>>,
    ip: Seq<char>,
    port: u16,
    n: nat,
    url: Seq<char>,
    user: Seq<char>,
) -> bool {
    exists|k: int|
        0 <= k < n && #[trigger] users[k] == user && has_remote_entry(
            fetched(records, k),
            ip,
            port,
            url,
        )
}

/// Where some destination has the address `url`, there is a first one, and
/// [`first_bucket`] is its index.
pub proof fn lemma_first_bucket(buckets: Seq<NodeToVoView>, url: Seq<char>)
    requires
        has_bucket(buckets, url),
    ensures
        is_first_bucket(buckets, url, first_bucket(buckets, url)),
{
    let some = choose|i: int| 0 <= i < buckets.len() && (#[trigger] buckets[i]).base_url == url;
    lemma_first_bucket_before(buckets, url, some);
}

proof fn lemma_first_bucket_before(buckets: Seq<NodeToVoView>, url: Seq<char>, at: int)
    requires
        0 <= at < buckets.len(),
        buckets[at].base_url == url,
    ensures
        exists|first: int| is_first_bucket(buckets, url, first),
    decreases at,
{
    if exists|j: int| 0 <= j < at && (#[trigger] buckets[j]).base_url == url {
        let j = choose|j: int| 0 <= j < at && (#[trigger] buckets[j]).base_url == url;
        lemma_first_bucket_before(buckets, url, j);
    } else {
        assert(is_first_bucket(buckets, url, at));
    }
}

/// Recording a user keeps the destinations in order for a fan-out.
pub proof fn lemma_enlist_keeps_order(
    buckets: Seq<NodeToVoView>,
    ip: Seq<char>,
    port: u16,
    user: Seq<char>,
)
    requires
        fanout_ok(buckets),
    ensures
        fanout_ok(enlist(buckets, ip, port, user)),
{
    let url = push_url_of(ip, port);
    let after = enlist(buckets, ip, port, user);
    if is_listed(buckets, url, user) {
    } else if has_bucket(buckets, url) {
        lemma_first_bucket(buckets, url);
        let at = first_bucket(buckets, url);
        let grown = with_user(buckets[at], user);
        assert(!buckets[at].user_ids.contains(user));
        assert(grown.user_ids.no_duplicates()) by {
            assert forall|a: int, b: int|
                0 <= a < grown.user_ids.len() && 0 <= b < grown.user_ids.len() && a
                    != b implies grown.user_ids[a] != grown.user_ids[b] by {
                if a < buckets[at].user_ids.len() && b < buckets[at].user_ids.len() {
                } else if a < buckets[at].user_ids.len() {
                    assert(buckets[at].user_ids.contains(buckets[at].user_ids[a]));
                } else {
                    assert(buckets[at].user_ids.contains(buckets[at].user_ids[b]));
                }
            }
        }
        assert forall|i: int| 0 <= i < after.len() implies (#[trigger] after[i]).base_url
            == buckets[i].base_url && after[i].ip == buckets[i].ip && after[i].port
            == buckets[i].port by {}
        assert forall|i: int| 0 <= i < after.len() implies (
        #[trigger] after[i]).user_ids.no_duplicates() && after[i].user_ids.len() > 0 by {
            if i != at {
                assert(after[i] == buckets[i]);
            }
        }
    } else {
        let last = buckets.len() as int;
        assert forall|i: int, j: int| 0 <= i < j < after.len() implies (
        #[trigger] after[i]).base_url != (#[trigger] after[j]).base_url by {
            if j == last {
                assert(buckets[i].base_url != url);
            }
        }
        assert forall|i: int| 0 <= i < after.len() implies (
        #[trigger] after[i]).user_ids.no_duplicates() && after[i].user_ids.len() > 0
            && after[i].base_url == push_url_of(after[i].ip, after[i].port) by {
            if i == last {
                assert(after[i].user_ids =~= seq![user]);
            } else {
                assert(after[i] == buckets[i]);
            }
        }
    }
}

/// After a user has been recorded for a remote node, a destination with that
/// node's address lists the user; whoever was listed before still is; and
/// nobody else is listed.
pub proof fn lemma_enlist_lists(
    buckets: Seq<NodeToVoView>,
    ip: Seq<char>,
    port: u16,
    user: Seq<char>,
    url: Seq<char>,
    other: Seq<char>,
)
    ensures
        is_listed(enlist(buckets, ip, port, user), url, other) <==> is_listed(
            buckets,
            url,
            other,
        ) || (url == push_url_of(ip, port) && other == user),
{
    let own = push_url_of(ip, port);
    let after = enlist(buckets, ip, port, user);
    if is_listed(buckets, own, user) {
    } else if has_bucket(buckets, own) {
        lemma_first_bucket(buckets, own);
        let at = first_bucket(buckets, own);
        let grown = with_user(buckets[at], user);
        assert(after[at] == grown);
        assert(grown.user_ids[grown.user_ids.len() - 1] == user);
        assert(grown.user_ids.contains(user));
        if is_listed(buckets, url, other) {
            let i = choose|i: int|
                0 <= i < buckets.len() && (#[trigger] buckets[i]).base_url == url
                    && buckets[i].user_ids.contains(other);
            let k = choose|k: int| 0 <= k < buckets[i].user_ids.len() && buckets[i].user_ids[k]
                == other;
            if i == at {
                assert(grown.user_ids[k] == other);
            } else {
                assert(after[i] == buckets[i]);
            }
            assert(after[i].base_url == url && after[i].user_ids.contains(other));
        }
        if is_listed(after, url, other) {
            let i = choose|i: int|
                0 <= i < after.len() && (#[trigger] after[i]).base_url == url
                    && after[i].user_ids.contains(other);
            if i == at {
                let k = choose|k: int| 0 <= k < grown.user_ids.len() && grown.user_ids[k]
                    == other;
                if k < buckets[at].user_ids.len() {
                    assert(buckets[at].user_ids[k] == other);
                    assert(buckets[at].base_url == url && buckets[at].user_ids.contains(other));
                }
            } else {
                assert(after[i] == buckets[i]);
                assert(buckets[i].base_url == url && buckets[i].user_ids.contains(other));
            }
        }
    } else {
        let last = buckets.len() as int;
        assert(after[last].user_ids =~= seq![user]);
        assert(after[last].user_ids[0] == user);
        assert(after[last].base_url == own && after[last].user_ids.contains(user));
        if is_listed(buckets, url, other) {
            let i = choose|i: int|
                0 <= i < buckets.len() && (#[trigger] buckets[i]).base_url == url
                    && buckets[i].user_ids.contains(other);
            assert(after[i] == buckets[i]);
            assert(after[i].base_url == url && after[i].user_ids.contains(other));
        }
        if is_listed(after, url, other) {
            let i = choose|i: int|
                0 <= i < after.len() && (#[trigger] after[i]).base_url == url
                    && after[i].user_ids.contains(other);
            if i < last {
                assert(after[i] == buckets[i]);
                assert(buckets[i].base_url == url && buckets[i].user_ids.contains(other));
            }
        }
    }
}

/// Routing one user's record keeps the destinations in order for a fan-out.
pub proof fn lemma_enlist_remote_keeps_order(
    buckets: Seq<NodeToVoView>,
    user: Seq<char>,
    nodes: Seq<AppNodeView>,
    ip: Seq<char>,
    port: u16,
)
    requires
        fanout_ok(buckets),
    ensures
        fanout_ok(enlist_remote(buckets, user, nodes, ip, port)),
    decreases nodes.len(),
{
    if nodes.len() > 0 {
        lemma_enlist_remote_keeps_order(buckets, user, nodes.drop_last(), ip, port);
        let before = enlist_remote(buckets, user, nodes.drop_last(), ip, port);
        let n = nodes.last();
        if !is_on_node(n, ip, port) {
            lemma_enlist_keeps_order(before, n.ip, n.port, user);
        }
    }
}

/// After one user's record has been routed, a destination lists a user if
/// and only if it listed the user before, or the user is the one routed and
/// the record holds an entry on the destination's node.
pub proof fn lemma_enlist_remote_lists(
    buckets: Seq<NodeToVoView>,
    user: Seq<char>,
    nodes: Seq<AppNodeView>,
    ip: Seq<char>,
    port: u16,
    url: Seq<char>,
    other: Seq<char>,
)
    ensures
        is_listed(enlist_remote(buckets, user, nodes, ip, port), url, other) <==> is_listed(
            buckets,
            url,
            other,
        ) || (other == user && has_remote_entry(nodes, ip, port, url)),
    decreases nodes.len(),
{
    if nodes.len() > 0 {
        let rest = nodes.drop_last();
        let n = nodes.last();
        lemma_enlist_remote_lists(buckets, user, rest, ip, port, url, other);
        let before = enlist_remote(buckets, user, rest, ip, port);
        if !is_on_node(n, ip, port) {
            lemma_enlist_lists(before, n.ip, n.port, user, url, other);
        }
        if has_remote_entry(rest, ip, port, url) {
            let i = choose|i: int|
                0 <= i < rest.len() && !is_on_node(#[trigger] rest[i], ip, port) && push_url_of(
                    rest[i].ip,
                    rest[i].port,
                ) == url;
            assert(nodes[i] == rest[i]);
        }
        if !is_on_node(n, ip, port) && push_url_of(n.ip, n.port) == url {
            assert(nodes[nodes.len() - 1] == n);
        }
        if has_remote_entry(nodes, ip, port, url) {
            let i = choose|i: int|
                0 <= i < nodes.len() && !is_on_node(#[trigger] nodes[i], ip, port) && push_url_of(
                    nodes[i].ip,
                    nodes[i].port,
                ) == url;
            if i < rest.len() {
                assert(rest[i] == nodes[i]);
            }
        }
    }
}

/// Fan-out: the destinations of a push are in order. No two of them have
/// the same address, none lists a user twice, and none is without users.
pub proof fn lemma_push_buckets_in_order(
    users: Seq<Seq<char>>,
    records: Seq<Option<SessionUser>>,
    ip: Seq<char>,
    port: u16,
    n: nat,
)
    ensures
        fanout_ok(push_buckets(users, records, ip, port, n)),
    decreases n,
{
    if n > 0 {
        lemma_push_buckets_in_order(users, records, ip, port, (n - 1) as nat);
        lemma_enlist_remote_keeps_order(
            push_buckets(users, records, ip, port, (n - 1) as nat),
            users[n - 1],
            fetched(records, n - 1),
            ip,
            port,
        );
    }
}

/// Fan-out: a destination of a push lists a user if and only if the push is
/// for that user and the user's record holds an entry on the destination's
/// node, which is another node than this one.
pub proof fn lemma_push_buckets_list_targets(
    users: Seq<Seq<char>>,
    records: Seq<Option<SessionUser>>,
    ip: Seq<char>,
    port: u16,
    n: nat,
    url: Seq<char>,
    user: Seq<char>,
)
    ensures
        is_listed(push_buckets(users, records, ip, port, n), url, user) <==> is_remote_target(
            users,
            records,
            ip,
            port,
            n,
            url,
            user,
        ),
    decreases n,
{
    if n > 0 {
        let m = (n - 1) as nat;
        lemma_push_buckets_list_targets(users, records, ip, port, m, url, user);
        lemma_enlist_remote_lists(
            push_buckets(users, records, ip, port, m),
            users[n - 1],
            fetched(records, n - 1),
            ip,
            port,
            url,
            user,
        );
        if is_remote_target(users, records, ip, port, m, url, user) {
            let k = choose|k: int|
                0 <= k < m && #[trigger] users[k] == user && has_remote_entry(
                    fetched(records, k),
                    ip,
                    port,
                    url,
                );
            assert(0 <= k < n && users[k] == user);
        }
        if users[n - 1] == user && has_remote_entry(fetched(records, n - 1), ip, port, url) {
            assert(0 <= n - 1 < n && users[n - 1] == user);
        }
        if is_remote_target(users, records, ip, port, n, url, user) {
            let k = choose|k: int|
                0 <= k < n && #[trigger] users[k] == user && has_remote_entry(
                    fetched(records, k),
                    ip,
                    port,
                    url,
                );
            if k < m {
                assert(is_remote_target(users, records, ip, port, m, url, user));
            }
        }
    } else {
        let none = push_buckets(users, records, ip, port, 0);
        assert(none.len() == 0);
    }
}

/// The digit that the character `c` writes; 9 for a character that writes
/// none.
pub open spec fn digit_value(c: char) -> nat {
    if c == '0' {
        0
    } else if c == '1' {
        1
    } else if c == '2' {
        2
    } else if c == '3' {
        3
    } else if c == '4' {
        4
    } else if c == '5' {
        5
    } else if c == '6' {
        6
    } else if c == '7' {
        7
    } else if c == '8' {
        8
    } else {
        9
    }
}

/// The number that a decimal numeral writes.
pub open spec fn decimal_value(digits: Seq<char>) -> nat
    decreases digits.len(),
{
    if digits.len() == 0 {
        0
    } else {
        decimal_value(digits.drop_last()) * 10 + digit_value(digits.last())
    }
}

/// A decimal numeral has at least one character, holds no colon, and writes
/// the number it was made from.
pub proof fn lemma_decimal_reads_back(n: nat)
    ensures
        decimal(n).len() >= 1,
        forall|i: int| 0 <= i < decimal(n).len() ==> #[trigger] decimal(n)[i] != ':',
        decimal_value(decimal(n)) == n,
    decreases n,
{
    if n < 10 {
        let d = decimal(n);
        assert(d.drop_last() =~= Seq::<char>::empty());
        assert(decimal_value(d.drop_last()) == 0);
        assert(digit_value(digit_char(n)) == n);
    } else {
        lemma_decimal_reads_back(n / 10);
        let d = decimal(n);
        assert(d.drop_last() =~= decimal(n / 10));
        assert(digit_value(digit_char(n % 10)) == n % 10);
        assert forall|i: int| 0 <= i < d.len() implies #[trigger] d[i] != ':' by {
            if i < d.len() - 1 {
                assert(d[i] == decimal(n / 10)[i]);
            }
        }
    }
}

/// The address of an ingress endpoint tells the node: two nodes with the
/// same address are the same node. So a fan-out that holds one destination
/// for each address holds one for each remote node.
pub proof fn lemma_push_url_tells_node(ip1: Seq<char>, port1: u16, ip2: Seq<char>, port2: u16)
    requires
        push_url_of(ip1, port1) == push_url_of(ip2, port2),
    ensures
        ip1 == ip2,
        port1 == port2,
{
    reveal_strlit(":");
    let pre = "http://"@;
    let suf = "/api/node/push"@;
    let d1 = decimal(port1 as nat);
    let d2 = decimal(port2 as nat);
    let m1 = ip1 + ":"@ + d1;
    let m2 = ip2 + ":"@ + d2;
    let s1 = push_url_of(ip1, port1);
    let s2 = push_url_of(ip2, port2);
    lemma_decimal_reads_back(port1 as nat);
    lemma_decimal_reads_back(port2 as nat);
    assert(":"@ =~= seq![':']);
    assert(s1 =~= pre + m1 + suf);
    assert(s2 =~= pre + m2 + suf);
    assert(m1.len() == m2.len());
    assert(m1 =~= s1.subrange(pre.len() as int, (pre.len() + m1.len()) as int));
    assert(m2 =~= s2.subrange(pre.len() as int, (pre.len() + m2.len()) as int));
    assert(m1 == m2);
    let a = ip1.len() as int;
    let b = ip2.len() as int;
    assert(m1[a] == ':');
    assert(m2[b] == ':');
    if a < b {
        assert(m1[b] == d1[b - a - 1]);
    }
    if b < a {
        assert(m2[a] == d2[a - b - 1]);
    }
    assert(a == b);
    assert(ip1 =~= m1.subrange(0, a));
    assert(ip2 =~= m2.subrange(0, b));
    assert(d1 =~= m1.subrange(a + 1, m1.len() as int));
    assert(d2 =~= m2.subrange(b + 1, m2.len() as int));
}

/// A connection that enters its user's record adds exactly one entry, its
/// own, at the end; what stands before it is what the directory held, less
/// the stale entries.
pub proof fn lemma_join_appends_one(
    cached_session: Option<Seq<AppNodeView>>,
    node: AppNodeView,
    ip: Seq<char>,
    port: u16,
    live: Set<Seq<char>>,
)
    ensures
        joined_record(cached_session, node, ip, port, live).len() >= 1,
        joined_record(cached_session, node, ip, port, live).last() == node,
        joined_record(cached_session, node, ip, port, live).drop_last() == (match cached_session {
            Some(nodes) => retain_live(nodes, ip, port, live),
            None => Seq::<AppNodeView>::empty(),
        }),
{
    let joined = joined_record(cached_session, node, ip, port, live);
    let base = match cached_session {
        Some(nodes) => retain_live(nodes, ip, port, live),
        None => Seq::<AppNodeView>::empty(),
    };
    assert(joined =~= base.push(node));
    assert(joined.drop_last() =~= base);
}

/// Where a connection is registered when it enters its user's record, the
/// entry that the record gains names a live connection, and no entry of the
/// record is stale afterwards.
pub proof fn lemma_join_names_live_connection(
    cached_session: Option<Seq<AppNodeView>>,
    node: AppNodeView,
    ip: Seq<char>,
    port: u16,
    live: Set<Seq<char>>,
)
    requires
        live.contains(node.session_id),
    ensures
        live.contains(joined_record(cached_session, node, ip, port, live).last().session_id),
        !has_stale(joined_record(cached_session, node, ip, port, live), ip, port, live),
{
    let joined = joined_record(cached_session, node, ip, port, live);
    lemma_join_appends_one(cached_session, node, ip, port, live);
    let base = joined.drop_last();
    assert(joined =~= base.push(node));
    match cached_session {
        Some(nodes) => {
            lemma_retain_live_heals(nodes, ip, port, live);
        },
        None => {},
    }
    assert forall|i: int| 0 <= i < joined.len() implies !is_stale(
        #[trigger] joined[i],
        ip,
        port,
        live,
    ) by {
        if i < base.len() {
            assert(joined[i] == base[i]);
        }
    }
}

/// A record in which at most one entry names a connection no longer names
/// it once [`without_session`] has removed that entry.
pub proof fn lemma_without_session_forgets(nodes: Seq<AppNodeView>, session_id: Seq<char>)
    requires
        forall|i: int, j: int|
            0 <= i < j < nodes.len() ==> !((#[trigger] nodes[i]).session_id == session_id && (
            #[trigger] nodes[j]).session_id == session_id),
    ensures
        !names_session(without_session(nodes, session_id), session_id),
{
    let left = without_session(nodes, session_id);
    if names_session(nodes, session_id) {
        let some = choose|i: int| 0 <= i < nodes.len() && (#[trigger] nodes[i]).session_id
            == session_id;
        assert forall|j: int| 0 <= j < some implies (#[trigger] nodes[j]).session_id
            != session_id by {
            assert(nodes[some].session_id == session_id);
        }
        lemma_without_session_at(nodes, session_id, some);
        assert forall|k: int| 0 <= k < left.len() implies (#[trigger] left[k]).session_id
            != session_id by {
            let from = if k < some {
                k
            } else {
                k + 1
            };
            assert(left[k] == nodes[from]);
            assert(nodes[some].session_id == session_id);
        }
    } else {
        lemma_without_session_absent(nodes, session_id);
    }
}

/// The connections that get the message are those that a local entry of the
/// record names and that are live.
pub proof fn lemma_local_deliveries(
    nodes: Seq<AppNodeView>,
    ip: Seq<char>,
    port: u16,
    live: Set<Seq<char>>,
    session_id: Seq<char>,
)
    ensures
        live_local_sessions(nodes, ip, port, live).contains(session_id) <==> live.contains(
            session_id,
        ) && exists|i: int|
            0 <= i < nodes.len() && is_on_node(#[trigger] nodes[i], ip, port) && nodes[i].session_id
                == session_id,
{
    let wanted = |n: AppNodeView| is_on_node(n, ip, port) && live.contains(n.session_id);
    let chosen = nodes.filter(wanted);
    let ids = live_local_sessions(nodes, ip, port, live);
    if ids.contains(session_id) {
        let k = choose|k: int| 0 <= k < ids.len() && ids[k] == session_id;
        nodes.lemma_filter_pred(wanted, k);
        assert(chosen.contains(chosen[k]));
        nodes.lemma_filter_contains_rev(wanted, chosen[k]);
        let i = choose|i: int| 0 <= i < nodes.len() && nodes[i] == chosen[k];
        assert(is_on_node(nodes[i], ip, port) && nodes[i].session_id == session_id);
    }
    if live.contains(session_id) && exists|i: int|
        0 <= i < nodes.len() && is_on_node(#[trigger] nodes[i], ip, port) && nodes[i].session_id
            == session_id {
        let i = choose|i: int|
            0 <= i < nodes.len() && is_on_node(#[trigger] nodes[i], ip, port) && nodes[i].session_id
                == session_id;
        nodes.lemma_filter_contains(wanted, i);
        let k = choose|k: int| 0 <= k < chosen.len() && chosen[k] == nodes[i];
        assert(ids[k] == session_id);
    }
}

/// Every local entry of a record either gets the message or is dropped as
/// stale: the deliveries and the dropped entries together are as many as the
/// local entries.
pub proof fn lemma_local_entries_accounted(
    nodes: Seq<AppNodeView>,
    ip: Seq<char>,
    port: u16,
    live: Set<Seq<char>>,
)
    ensures
        nodes.filter(|n: AppNodeView| is_on_node(n, ip, port)).len() == live_local_sessions(
            nodes,
            ip,
            port,
            live,
        ).len() + (nodes.len() - retain_live(nodes, ip, port, live).len()),
    decreases nodes.len(),
{
    reveal(Seq::filter);
    if nodes.len() > 0 {
        lemma_local_entries_accounted(nodes.drop_last(), ip, port, live);
    }
}

/// A push to users who are offline is a no-op: where none of the first `n`
/// users has an entry, there is no destination and no delivery, and no
/// record has anything to drop.
pub proof fn lemma_push_to_offline_users(
    users: Seq<Seq<char>>,
    records: Seq<Option<SessionUser>>,
    ip: Seq<char>,
    port: u16,
    live: Set<Seq<char>>,
    n: nat,
)
    requires
        forall|k: int| 0 <= k < n ==> (#[trigger] fetched(records, k)).len() == 0,
    ensures
        push_buckets(users, records, ip, port, n) == Seq::<NodeToVoView>::empty(),
        push_deliveries(records, ip, port, live, n) == Seq::<Seq<char>>::empty(),
        forall|k: int| 0 <= k < n ==> !has_stale(#[trigger] fetched(records, k), ip, port, live),
    decreases n,
{
    if n > 0 {
        let m = (n - 1) as nat;
        lemma_push_to_offline_users(users, records, ip, port, live, m);
        let none = fetched(records, n - 1);
        assert(none =~= Seq::<AppNodeView>::empty());
        assert(live_local_sessions(none, ip, port, live) =~= Seq::<Seq<char>>::empty());
        assert(push_deliveries(records, ip, port, live, n) =~= Seq::<Seq<char>>::empty());
    }
}

} // verus!
