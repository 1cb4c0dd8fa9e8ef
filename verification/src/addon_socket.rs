//! The add-on listener: one session for each connection of an add-on.

use crate::addon_instance::{
    reaction_view, session_after, session_reaction, AddonInstance, GatewayContext, Msg, Reaction,
    ReactionView, SessionView,
};
use crate::error::Error;
use std::collections::HashMap;
use vstd::prelude::*;

verus! {

broadcast use vstd::std_specs::hash::group_hash_axioms;

/// The sessions of the add-ons that are connected, each under the number
/// by which the caller knows the connection.
#[derive(Debug)]
pub struct AddonSocket {
    sessions: HashMap<u64, AddonInstance>,
}

/// The sessions of a map, each as its state.
pub open spec fn session_views(sessions: Map<u64, AddonInstance>) -> Map<u64, SessionView> {
    sessions.map_values(|s: AddonInstance| s@)
}

impl View for AddonSocket {
    type V = Map<u64, SessionView>;

    closed spec fn view(&self) -> Map<u64, SessionView> {
        session_views(self.sessions@)
    }
}

/// What a message on a connection yields: what the connection's session
/// makes of it, or the refusal where no session is known under the number.
pub open spec fn socket_reaction(
    sessions: Map<u64, SessionView>,
    session: u64,
    context: GatewayContext,
    msg: Msg,
) -> Result<ReactionView, Error> {
    if sessions.contains_key(session) {
        session_reaction(sessions[session], context, msg.0)
    } else {
        Err(Error::SessionNotFound)
    }
}

/// The sessions after a message on a connection.
pub open spec fn socket_after(sessions: Map<u64, SessionView>, session: u64, msg: Msg) -> Map<
    u64,
    SessionView,
> {
    if sessions.contains_key(session) {
        sessions.insert(session, session_after(sessions[session], msg.0))
    } else {
        sessions
    }
}

impl AddonSocket {
    /// A listener without connections.
    pub fn new() -> (socket: AddonSocket)
        ensures
            socket@ == Map::<u64, SessionView>::empty(),
    {
        let socket = AddonSocket { sessions: HashMap::new() };
        assert(session_views(socket.sessions@) =~= Map::empty());
        socket
    }

    /// Takes a new connection: a fresh session stands under its number, in
    /// place of any session that stood there.
    pub fn connected(&mut self, session: u64)
        ensures
            final(self)@ == old(self)@.insert(
                session,
                SessionView { session, plugin_id: None, adapters: Map::empty() },
            ),
    {
        self.sessions.insert(session, AddonInstance::new(session));
        assert(session_views(self.sessions@) =~= old(self)@.insert(
            session,
            SessionView { session, plugin_id: None, adapters: Map::empty() },
        ));
    }

    /// Takes the news that a connection is closed: its session ends.
    pub fn closed(&mut self, session: u64)
        ensures
            final(self)@ == old(self)@.remove(session),
    {
        self.sessions.remove(&session);
        assert(session_views(self.sessions@) =~= old(self)@.remove(session));
    }

    /// The session of a connection.
    pub fn session(&self, session: u64) -> (found: Option<&AddonInstance>)
        ensures
            match found {
                Some(s) => self@.contains_key(session) && s@ == self@[session],
                None => !self@.contains_key(session),
            },
    {
        self.sessions.get(&session)
    }

    /// Hands a message from a connection to its session.
    pub fn message(&mut self, session: u64, context: &GatewayContext, msg: Msg) -> (result: Result<
        Reaction,
        Error,
    >)
        ensures
            reaction_view(result) == socket_reaction(old(self)@, session, *context, msg),
            final(self)@ == socket_after(old(self)@, session, msg),
    {
        match self.sessions.remove(&session) {
            None => {
                assert(session_views(self.sessions@) =~= old(self)@);
                Err(Error::SessionNotFound)
            },
            Some(instance) => {
                let mut instance = instance;
                let result = instance.handle(context, msg);
                self.sessions.insert(session, instance);
                assert(session_views(self.sessions@) =~= socket_after(old(self)@, session, msg));
                result
            },
        }
    }
}

} // verus!
