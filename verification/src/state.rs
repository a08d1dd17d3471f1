//! The actor's own state: its server, its chat-state service and the open
//! browser connections.
use std::collections::HashMap;
use vstd::prelude::*;
use vstd::std_specs::iter::IteratorSpec;

verus! {

broadcast use vstd::std_specs::hash::group_hash_axioms;

/// What is kept about an open browser connection.
#[derive(Debug, Clone, Copy, PartialEq, Eq, Structural)]
pub struct ConnectionInfo {
    pub connected_at: u64,
}

/// The state of the chat front end between two calls.
#[derive(Debug)]
pub struct FrontChatState {
    pub server_id: u64,
    pub chat_state_id: Option<String>,
    pub conversation_id: String,
    pub active_connections: HashMap<u64, ConnectionInfo>,
    pub chat_state_channel: Option<String>,
}

impl FrontChatState {
    /// The open connections, by id.
    pub open spec fn connections(&self) -> Map<u64, ConnectionInfo> {
        self.active_connections@
    }

    /// Everything but the connections is the same in `self` and `other`.
    pub open spec fn same_but_connections(&self, other: &FrontChatState) -> bool {
        &&& self.server_id == other.server_id
        &&& self.chat_state_id == other.chat_state_id
        &&& self.conversation_id == other.conversation_id
        &&& self.chat_state_channel == other.chat_state_channel
    }
}

/// The state right after start-up: no connection is open.
pub fn initial_state(
    server_id: u64,
    chat_state_id: Option<String>,
    conversation_id: String,
    chat_state_channel: Option<String>,
) -> (r: FrontChatState)
    ensures
        r.server_id == server_id,
        r.chat_state_id == chat_state_id,
        r.conversation_id == conversation_id,
        r.chat_state_channel == chat_state_channel,
        r.connections() == Map::<u64, ConnectionInfo>::empty(),
{
    FrontChatState {
        server_id,
        chat_state_id,
        conversation_id,
        active_connections: HashMap::new(),
        chat_state_channel,
    }
}

/// The ids of the open connections, each once, in the map's own order.
pub fn connection_ids(state: &FrontChatState) -> (r: Vec<u64>)
    ensures
        r@.no_duplicates(),
        r@.to_set() == state.connections().dom(),
{
    let ghost keys = vstd::std_specs::hash::spec_keys_iter(&state.active_connections).remaining();
    let mut ids: Vec<u64> = Vec::new();
    for id in it: state.active_connections.keys()
        invariant
            it.seq() == keys,
            ids@ == keys.take(it.index()).map_values(|k: &u64| *k),
    {
        ids.push(*id);
        assert(ids@ =~= keys.take(it.index() + 1).map_values(|k: &u64| *k));
    }
    proof {
        assert(keys.take(keys.len() as int) =~= keys);
        assert(ids@ =~= keys.map_values(|k: &u64| *k));
        assert(keys.unref() =~= keys.map_values(|k: &u64| *k));
    }
    ids
}

} // verus!
