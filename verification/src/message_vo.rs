use crate::text::{clone_texts, texts};
use vstd::prelude::*;

verus! {

/// What a [`MessageVO`] says, as plain values.
pub ghost struct MessageVOView {
    pub app_id: Seq<char>,
    pub app_token: Seq<char>,
    pub message: Seq<char>,
    pub user_ids: Seq<Seq<char>>,
}

/// A push request from a backend service: one message for a list of users of
/// one application.
#[derive(Debug, PartialEq, Eq)]
pub struct MessageVO {
    pub app_id: String,
    pub app_token: String,
    pub message: String,
    pub user_ids: Vec<String>,
}

impl View for MessageVO {
    type V = MessageVOView;

    open spec fn view(&self) -> MessageVOView {
        MessageVOView {
            app_id: self.app_id@,
            app_token: self.app_token@,
            message: self.message@,
            user_ids: texts(self.user_ids@),
        }
    }
}

/// What a [`NodeToVo`] says, as plain values.
pub ghost struct NodeToVoView {
    pub base_url: Seq<char>,
    pub user_ids: Seq<Seq<char>>,
    pub ip: Seq<char>,
    pub port: u16,
}

/// One destination of a forwarded push: a peer node, the address of its
/// ingress endpoint, and the users that are believed to be connected to it.
#[derive(Debug, PartialEq, Eq)]
pub struct NodeToVo {
    pub base_url: String,
    pub user_ids: Vec<String>,
    pub ip: String,
    pub port: u16,
}

impl View for NodeToVo {
    type V = NodeToVoView;

    open spec fn view(&self) -> NodeToVoView {
        NodeToVoView {
            base_url: self.base_url@,
            user_ids: texts(self.user_ids@),
            ip: self.ip@,
            port: self.port,
        }
    }
}

impl Clone for NodeToVo {
    fn clone(&self) -> (copy: Self)
        ensures
            copy@ == self@,
    {
        NodeToVo {
            base_url: self.base_url.clone(),
            user_ids: clone_texts(&self.user_ids),
            ip: self.ip.clone(),
            port: self.port,
        }
    }
}

impl NodeToVo {
    pub fn new(base_url: String, user_ids: Vec<String>, ip: String, port: u16) -> (node: Self)
        ensures
            node.base_url == base_url,
            node.user_ids == user_ids,
            node.ip == ip,
            node.port == port,
    {
        NodeToVo { base_url, user_ids, ip, port }
    }
}

/// The destinations that a list of [`NodeToVo`] holds, in order.
pub open spec fn buckets_of(v: Seq<NodeToVo>) -> Seq<NodeToVoView> {
    v.map_values(|b: NodeToVo| b@)
}

/// What a [`NodeMessageVO`] says, as plain values.
pub ghost struct NodeMessageVOView {
    pub app_id: Seq<char>,
    pub app_token: Seq<char>,
    pub message: Seq<char>,
    pub node_to: Seq<NodeToVoView>,
}

/// The remote legs of one push: the message and every peer node that it has
/// to be forwarded to.
#[derive(Debug, PartialEq, Eq)]
pub struct NodeMessageVO {
    pub app_id: String,
    pub app_token: String,
    pub message: String,
    pub node_to: Vec<NodeToVo>,
}

impl View for NodeMessageVO {
    type V = NodeMessageVOView;

    open spec fn view(&self) -> NodeMessageVOView {
        NodeMessageVOView {
            app_id: self.app_id@,
            app_token: self.app_token@,
            message: self.message@,
            node_to: buckets_of(self.node_to@),
        }
    }
}

impl NodeMessageVO {
    /// The remote legs of a push before any user has been routed: no
    /// destination yet.
    pub fn init(app_id: String, app_token: String, message: String) -> (legs: Self)
        ensures
            legs.app_id == app_id,
            legs.app_token == app_token,
            legs.message == message,
            legs.node_to@ == Seq::<NodeToVo>::empty(),
    {
        NodeMessageVO { app_id, app_token, message, node_to: Vec::new() }
    }
}

/// What a [`NodeTo`] says, as plain values.
pub ghost struct NodeToView {
    pub node: NodeToVoView,
    pub app_id: Seq<char>,
    pub app_token: Seq<char>,
    pub message: Seq<char>,
}

/// The body of the inter-node push: one destination together with the
/// message and the application it belongs to.
#[derive(Debug, PartialEq, Eq)]
pub struct NodeTo {
    pub node: NodeToVo,
    pub app_id: String,
    pub app_token: String,
    pub message: String,
}

impl View for NodeTo {
    type V = NodeToView;

    open spec fn view(&self) -> NodeToView {
        NodeToView {
            node: self.node@,
            app_id: self.app_id@,
            app_token: self.app_token@,
            message: self.message@,
        }
    }
}

} // verus!
