use crate::text::texts;
use vstd::prelude::*;
use vstd::string::*;

verus! {

/// What a [`NodeConfig`] says, as plain values.
pub ghost struct NodeConfigView {
    pub ip: Seq<char>,
    pub port: u16,
    pub token: Seq<char>,
}

/// A peer node and the shared secret that a push forwarded to it carries.
#[derive(Debug, PartialEq, Eq)]
pub struct NodeConfig {
    pub ip: String,
    pub port: u16,
    pub token: String,
}

impl View for NodeConfig {
    type V = NodeConfigView;

    open spec fn view(&self) -> NodeConfigView {
        NodeConfigView { ip: self.ip@, port: self.port, token: self.token@ }
    }
}

/// The settings of one gateway process.
#[derive(Debug, PartialEq, Eq)]
pub struct Config {
    pub db_url: String,
    pub port: u16,
    pub redis_url: String,
    pub redis_ws: String,
    pub db_max_connections: u32,
    /// Lifetime of a login token, in seconds.
    pub token_ex: u64,
    pub local_cache_enabled: bool,
    /// Lifetime of the cached settings, in seconds.
    pub local_cache_ttl: u64,
    /// The shared secret that a push forwarded to this node has to carry.
    pub node_token: String,
    /// The address under which the other nodes reach this one.
    pub app_ip: String,
    pub node_config: Option<Vec<NodeConfig>>,
}

pub fn default_true() -> (enabled: bool)
    ensures
        enabled,
{
    true
}

pub fn default_cache_ttl() -> (seconds: u64)
    ensures
        seconds == 300,
{
    300
}

pub fn default_cache_size_limit() -> (limit: usize)
    ensures
        limit == 100,
{
    100
}

/// The secrets of the peers with address `(ip, port)`, in the order in which
/// the peers are configured.
pub open spec fn peer_tokens(peers: Seq<NodeConfigView>, ip: Seq<char>, port: u16) -> Seq<
    Seq<char>,
> {
    peers.filter(|c: NodeConfigView| c.port == port && c.ip == ip).map_values(
        |c: NodeConfigView| c.token,
    )
}

/// The name of the settings file inside the directory `dir`.
pub open spec fn config_file_in(dir: Seq<char>) -> Seq<char> {
    dir + "/config.yaml"@
}

/// The candidate for a directory that may be unknown: the settings file in
/// it, or the empty path.
pub open spec fn candidate_in(dir: Option<Seq<char>>) -> Seq<char> {
    match dir {
        Some(d) => config_file_in(d),
        None => Seq::<char>::empty(),
    }
}

/// `lines` one after the other, each but the first preceded by `sep`.
pub open spec fn joined(lines: Seq<Seq<char>>, sep: Seq<char>) -> Seq<char>
    decreases lines.len(),
{
    if lines.len() == 0 {
        Seq::<char>::empty()
    } else if lines.len() == 1 {
        lines[0]
    } else {
        joined(lines.drop_last(), sep) + sep + lines.last()
    }
}

/// What is reported when none of the candidate `paths` exists.
pub open spec fn not_found_message(paths: Seq<Seq<char>>) -> Seq<char> {
    "Config file not found. Tried:\n"@ + joined(paths, "\n"@)
}

fn candidate(dir: &Option<String>) -> (path: String)
    ensures
        path@ == candidate_in(
            match *dir {
                Some(d) => Some(d@),
                None => None,
            },
        ),
{
    match dir {
        Some(d) => {
            let mut path = d.clone();
            path.append("/config.yaml");
            path
        },
        None => String::new(),
    }
}

/// The places where the settings file is looked for, in the order in which
/// they are tried: the working directory, the directory of the package, the
/// directory of the executable.
pub fn config_paths(package_dir: &Option<String>, exe_dir: &Option<String>) -> (paths: Vec<String>)
    ensures
        paths.len() == 3,
        paths[0]@ == "./config.yaml"@,
        paths[1]@ == candidate_in(
            match *package_dir {
                Some(d) => Some(d@),
                None => None,
            },
        ),
        paths[2]@ == candidate_in(
            match *exe_dir {
                Some(d) => Some(d@),
                None => None,
            },
        ),
{
    let mut paths: Vec<String> = Vec::new();
    paths.push(String::from_str("./config.yaml"));
    paths.push(candidate(package_dir));
    paths.push(candidate(exe_dir));
    paths
}

/// The error for a settings file that none of the candidate `paths` holds.
pub fn config_not_found(paths: &Vec<String>) -> (message: String)
    ensures
        message@ == not_found_message(texts(paths@)),
{
    let ghost lines = texts(paths@);
    let mut message = String::from_str("Config file not found. Tried:\n");
    let ghost head = message@;
    let mut i: usize = 0;
    assert(lines.take(0) =~= Seq::<Seq<char>>::empty());
    assert(message@ =~= head + joined(lines.take(0), "\n"@));
    while i < paths.len()
        invariant
            i <= paths.len(),
            lines == texts(paths@),
            message@ == head + joined(lines.take(i as int), "\n"@),
        decreases paths.len() - i,
    {
        proof {
            assert(lines.take(i + 1).drop_last() =~= lines.take(i as int));
            assert(lines.take(i + 1).last() == paths[i as int]@);
        }
        if i > 0 {
            message.append("\n");
        }
        message.append(paths[i].as_str());
        proof {
            if i == 0 {
                assert(joined(lines.take(0), "\n"@) =~= Seq::<char>::empty());
                assert(message@ =~= head + joined(lines.take(1), "\n"@));
            } else {
                assert(message@ =~= head + joined(lines.take(i + 1), "\n"@));
            }
        }
        i += 1;
    }
    assert(lines.take(i as int) =~= lines);
    message
}

impl Config {
    /// The configured peers; none where the settings name no peers.
    pub open spec fn peers(&self) -> Seq<NodeConfigView> {
        match self.node_config {
            Some(nodes) => nodes@.map_values(|c: NodeConfig| c@),
            None => Seq::<NodeConfigView>::empty(),
        }
    }

    /// Whether settings that were loaded `age_secs` whole seconds ago may
    /// still be served from the cache: caching is switched on and the
    /// settings are younger than their lifetime.
    pub fn is_cache_fresh(&self, age_secs: u64) -> (fresh: bool)
        ensures
            fresh == (self.local_cache_enabled && age_secs < self.local_cache_ttl),
    {
        self.local_cache_enabled && age_secs < self.local_cache_ttl
    }

    /// The secrets configured for the peer `(ip, port)`.
    pub fn node_tokens(&self, ip: &String, port: u16) -> (tokens: Vec<String>)
        ensures
            texts(tokens@) == peer_tokens(self.peers(), ip@, port),
    {
        let mut tokens: Vec<String> = Vec::new();
        let ghost wanted = |c: NodeConfigView| c.port == port && c.ip == ip@;
        let ghost token_of = |c: NodeConfigView| c.token;
        match &self.node_config {
            Some(nodes) => {
                let ghost peers = self.peers();
                let mut i: usize = 0;
                assert(peers.take(0).filter(wanted) =~= Seq::<NodeConfigView>::empty());
                assert(texts(tokens@) =~= peers.take(0).filter(wanted).map_values(
                    token_of,
                ));
                while i < nodes.len()
                    invariant
                        i <= nodes.len(),
                        peers == nodes@.map_values(|c: NodeConfig| c@),
                        wanted == (|c: NodeConfigView| c.port == port && c.ip == ip@),
                        token_of == (|c: NodeConfigView| c.token),
                        texts(tokens@) == peers.take(i as int).filter(
                            wanted,
                        ).map_values(token_of),
                    decreases nodes.len() - i,
                {
                    let ghost head = peers.take(i as int);
                    proof {
                        assert(peers.take(i + 1) =~= head.push(peers[i as int]));
                        assert(head.push(peers[i as int]).drop_last() =~= head);
                        reveal_with_fuel(Seq::filter, 2);
                    }
                    if nodes[i].port == port && nodes[i].ip == *ip {
                        let ghost before = texts(tokens@);
                        tokens.push(nodes[i].token.clone());
                        proof {
                            assert(peers.take(i + 1).filter(wanted) == head.filter(wanted).push(
                                peers[i as int],
                            ));
                            assert(texts(tokens@) =~= before.push(
                                peers[i as int].token,
                            ));
                            assert(head.filter(wanted).push(peers[i as int]).map_values(token_of)
                                =~= head.filter(wanted).map_values(token_of).push(
                                peers[i as int].token,
                            ));
                        }
                    } else {
                        proof {
                            assert(peers.take(i + 1).filter(wanted) == head.filter(wanted));
                        }
                    }
                    i += 1;
                }
                assert(peers.take(i as int) =~= peers);
            },
            None => {
                assert(self.peers().filter(wanted) =~= Seq::<NodeConfigView>::empty());
                assert(texts(tokens@) =~= self.peers().filter(wanted).map_values(
                    token_of,
                ));
            },
        }
        tokens
    }
}

} // verus!
