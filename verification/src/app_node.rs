use crate::session_manager::SessionManager;
use vstd::prelude::*;

verus! {

/// What an [`AppNode`] says, as plain values.
pub ghost struct AppNodeView {
    pub ip: Seq<char>,
    pub port: u16,
    pub session_id: Seq<char>,
}

/// One place where a user's session lives: the node that holds the connection
/// and the identifier of the connection on that node.
#[derive(Debug, PartialEq, Eq)]
pub struct AppNode {
    pub ip: String,
    pub port: u16,
    pub session_id: String,
}

impl View for AppNode {
    type V = AppNodeView;

    open spec fn view(&self) -> AppNodeView {
        AppNodeView { ip: self.ip@, port: self.port, session_id: self.session_id@ }
    }
}

/// Every session of one user of one application, across the cluster. A record
/// without entries means that the user has no active session.
#[derive(Debug, PartialEq, Eq)]
pub struct SessionUser {
    pub nodes: Vec<AppNode>,
}

impl View for SessionUser {
    type V = Seq<AppNodeView>;

    open spec fn view(&self) -> Seq<AppNodeView> {
        self.nodes@.map_values(|n: AppNode| n@)
    }
}

/// The entry lives on the node with address `(ip, port)`.
pub open spec fn is_on_node(n: AppNodeView, ip: Seq<char>, port: u16) -> bool {
    n.ip == ip && n.port == port
}

/// The entry claims a connection on the node `(ip, port)` that is not among
/// the `live` connections of that node.
pub open spec fn is_stale(n: AppNodeView, ip: Seq<char>, port: u16, live: Set<Seq<char>>) -> bool {
    is_on_node(n, ip, port) && !live.contains(n.session_id)
}

/// The entries that are left when the stale entries of node `(ip, port)` are
/// dropped; the others keep their order.
pub open spec fn retain_live(
    nodes: Seq<AppNodeView>,
    ip: Seq<char>,
    port: u16,
    live: Set<Seq<char>>,
) -> Seq<AppNodeView> {
    nodes.filter(|n: AppNodeView| !is_stale(n, ip, port, live))
}

/// Some entry of `nodes` is stale with respect to node `(ip, port)`.
pub open spec fn has_stale(
    nodes: Seq<AppNodeView>,
    ip: Seq<char>,
    port: u16,
    live: Set<Seq<char>>,
) -> bool {
    exists|i: int| 0 <= i < nodes.len() && is_stale(#[trigger] nodes[i], ip, port, live)
}

/// Some entry of `nodes` names the connection `session_id`.
pub open spec fn names_session(nodes: Seq<AppNodeView>, session_id: Seq<char>) -> bool {
    exists|i: int| 0 <= i < nodes.len() && (#[trigger] nodes[i]).session_id == session_id
}

/// `nodes` without the first entry that names the connection `session_id`;
/// `nodes` itself where no entry names it.
pub open spec fn without_session(nodes: Seq<AppNodeView>, session_id: Seq<char>) -> Seq<
    AppNodeView,
>
    decreases nodes.len(),
{
    if nodes.len() == 0 {
        nodes
    } else if nodes[0].session_id == session_id {
        nodes.drop_first()
    } else {
        seq![nodes[0]] + without_session(nodes.drop_first(), session_id)
    }
}

impl Clone for AppNode {
    fn clone(&self) -> (copy: Self)
        ensures
            copy@ == self@,
    {
        AppNode { ip: self.ip.clone(), port: self.port, session_id: self.session_id.clone() }
    }
}

impl AppNode {
    pub fn new(ip: String, port: u16, session_id: String) -> (node: AppNode)
        ensures
            node.ip == ip,
            node.port == port,
            node.session_id == session_id,
    {
        AppNode { ip, port, session_id }
    }

    /// Whether this entry lives on the node with address `(ip, port)`.
    pub fn is_on(&self, ip: &String, port: u16) -> (here: bool)
        ensures
            here == is_on_node(self@, ip@, port),
    {
        self.ip == *ip && port == self.port
    }
}

impl SessionUser {
    pub fn new(nodes: Vec<AppNode>) -> (record: SessionUser)
        ensures
            record.nodes == nodes,
    {
        SessionUser { nodes }
    }

    /// Appends one entry to the record.
    pub fn add_node(&mut self, node: AppNode)
        ensures
            final(self)@ == old(self)@.push(node@),
    {
        self.nodes.push(node);
        assert(self@ =~= old(self)@.push(node@));
    }

    /// Drops every entry that claims a connection on the node `(ip, port)`
    /// which `manager` does not hold, and reports whether any was dropped.
    pub fn cleanup_stale_nodes<H>(
        &mut self,
        ip: &String,
        port: u16,
        manager: &SessionManager<H>,
    ) -> (changed: bool)
        ensures
            final(self)@ == retain_live(old(self)@, ip@, port, manager@.dom()),
            changed == has_stale(old(self)@, ip@, port, manager@.dom()),
    {
        let ghost before = self@;
        let ghost live = manager@.dom();
        let ghost keep = |n: AppNodeView| !is_stale(n, ip@, port, live);
        let mut changed = false;
        let mut i: usize = 0;
        let ghost mut seen: int = 0;
        assert(before.take(0).filter(keep) =~= Seq::<AppNodeView>::empty());
        assert(self@ =~= before.take(0).filter(keep) + before.skip(0));
        while i < self.nodes.len()
            invariant
                0 <= seen <= before.len(),
                i <= self.nodes.len(),
                live == manager@.dom(),
                keep == (|n: AppNodeView| !is_stale(n, ip@, port, live)),
                i == before.take(seen).filter(keep).len(),
                self.nodes.len() - i == before.len() - seen,
                self@ == before.take(seen).filter(keep) + before.skip(seen),
                changed == has_stale(before.take(seen), ip@, port, live),
            decreases self.nodes.len() - i,
        {
            let ghost current = self@;
            let ghost head = before.take(seen);
            assert(current[i as int] == before.skip(seen)[0]);
            assert(before.take(seen + 1) =~= head.push(before[seen]));
            assert(head.push(before[seen]).drop_last() =~= head);
            reveal_with_fuel(Seq::filter, 2);
            let node = &self.nodes[i];
            let stale = node.is_on(ip, port) && !manager.is_session_exists(node.session_id.as_str());
            assert(stale == is_stale(before[seen], ip@, port, live));
            if stale {
                self.nodes.remove(i);
                changed = true;
                proof {
                    assert(before.take(seen + 1).filter(keep) == head.filter(keep));
                    assert(self@ =~= current.remove(i as int));
                    assert(current.remove(i as int) =~= head.filter(keep) + before.skip(seen + 1));
                    assert(is_stale(before.take(seen + 1)[seen], ip@, port, live));
                }
            } else {
                i += 1;
                proof {
                    assert(before.take(seen + 1).filter(keep) == head.filter(keep).push(
                        before[seen],
                    ));
                    assert(self@ =~= before.take(seen + 1).filter(keep) + before.skip(seen + 1));
                    if has_stale(before.take(seen + 1), ip@, port, live) {
                        let w = choose|w: int|
                            0 <= w < before.take(seen + 1).len() && is_stale(
                                #[trigger] before.take(seen + 1)[w],
                                ip@,
                                port,
                                live,
                            );
                        assert(w < seen);
                        assert(is_stale(head[w], ip@, port, live));
                    }
                    if has_stale(head, ip@, port, live) {
                        let w = choose|w: int|
                            0 <= w < head.len() && is_stale(#[trigger] head[w], ip@, port, live);
                        assert(is_stale(before.take(seen + 1)[w], ip@, port, live));
                    }
                }
            }
            proof {
                seen = seen + 1;
            }
        }
        proof {
            assert(before.take(seen) =~= before);
            assert(self@ =~= before.filter(keep));
        }
        changed
    }

    /// Drops the first entry that names the connection `session_id`, and
    /// reports whether there was one.
    pub fn remove_session(&mut self, session_id: &String) -> (found: bool)
        ensures
            final(self)@ == without_session(old(self)@, session_id@),
            found == names_session(old(self)@, session_id@),
    {
        let ghost before = self@;
        let mut i: usize = 0;
        while i < self.nodes.len()
            invariant
                i <= self.nodes.len(),
                self@ == before,
                before == old(self)@,
                forall|j: int| 0 <= j < i ==> (#[trigger] before[j]).session_id != session_id@,
            decreases self.nodes.len() - i,
        {
            if self.nodes[i].session_id == *session_id {
                assert(before[i as int].session_id == session_id@);
                self.nodes.remove(i);
                proof {
                    assert(self@ =~= before.remove(i as int));
                    lemma_without_session_at(before, session_id@, i as int);
                }
                return true;
            }
            i += 1;
        }
        proof {
            lemma_without_session_absent(before, session_id@);
        }
        false
    }
}

/// Where the first entry that names `session_id` stands at index `at`,
/// [`without_session`] removes exactly that index.
pub proof fn lemma_without_session_at(nodes: Seq<AppNodeView>, session_id: Seq<char>, at: int)
    requires
        0 <= at < nodes.len(),
        nodes[at].session_id == session_id,
        forall|j: int| 0 <= j < at ==> (#[trigger] nodes[j]).session_id != session_id,
    ensures
        without_session(nodes, session_id) == nodes.remove(at),
    decreases nodes.len(),
{
    if at == 0 {
        assert(nodes.drop_first() =~= nodes.remove(0));
    } else {
        let rest = nodes.drop_first();
        assert(nodes[0].session_id != session_id);
        assert forall|j: int| 0 <= j < at - 1 implies (#[trigger] rest[j]).session_id
            != session_id by {
            assert(rest[j] == nodes[j + 1]);
        }
        lemma_without_session_at(rest, session_id, at - 1);
        assert(seq![nodes[0]] + rest.remove(at - 1) =~= nodes.remove(at));
    }
}

/// A record in which no entry names `session_id` is left as it is by
/// [`without_session`].
pub proof fn lemma_without_session_absent(nodes: Seq<AppNodeView>, session_id: Seq<char>)
    requires
        !names_session(nodes, session_id),
    ensures
        without_session(nodes, session_id) == nodes,
    decreases nodes.len(),
{
    if nodes.len() > 0 {
        let rest = nodes.drop_first();
        assert(nodes[0].session_id != session_id);
        assert forall|j: int| 0 <= j < rest.len() implies (#[trigger] rest[j]).session_id
            != session_id by {
            assert(rest[j] == nodes[j + 1]);
        }
        lemma_without_session_absent(rest, session_id);
        assert(seq![nodes[0]] + rest =~= nodes);
    }
}

} // verus!
