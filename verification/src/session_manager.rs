use vstd::hash_map::StringHashMap;
use vstd::prelude::*;

verus! {

/// The process-local connection registry: which connection identifiers are
/// live on this node, and the handle through which each one is reached.
///
/// Abstractly it is a map from identifier to handle. The handle type is left
/// to the embedding program; the registry never looks inside it.
#[verifier::reject_recursive_types(H)]
pub struct SessionManager<H> {
    sessions: StringHashMap<H>,
}

impl<H> View for SessionManager<H> {
    type V = Map<Seq<char>, H>;

    closed spec fn view(&self) -> Map<Seq<char>, H> {
        self.sessions@
    }
}

impl<H> SessionManager<H> {
    /// An empty registry.
    pub fn new() -> (manager: Self)
        ensures
            manager@ == Map::<Seq<char>, H>::empty(),
    {
        SessionManager { sessions: StringHashMap::new() }
    }

    /// Registers `addr` under `session_id`, replacing whatever was registered
    /// under that identifier before.
    pub fn add_session(&mut self, session_id: String, addr: H)
        ensures
            final(self)@ == old(self)@.insert(session_id@, addr),
    {
        self.sessions.insert(session_id, addr);
    }

    /// Forgets `session_id`; a registry that does not hold it is left as it is.
    pub fn remove_session(&mut self, session_id: &str)
        ensures
            final(self)@ == old(self)@.remove(session_id@),
    {
        self.sessions.remove(session_id);
    }

    /// The handle registered under `session_id`, if the connection is live.
    pub fn get_session(&self, session_id: &str) -> (addr: Option<&H>)
        ensures
            match addr {
                Some(h) => self@.contains_key(session_id@) && *h == self@[session_id@],
                None => !self@.contains_key(session_id@),
            },
    {
        self.sessions.get(session_id)
    }

    /// Whether a connection is registered under `session_id`.
    pub fn is_session_exists(&self, session_id: &str) -> (live: bool)
        ensures
            live == self@.contains_key(session_id@),
    {
        self.sessions.contains_key(session_id)
    }
}

} // verus!
