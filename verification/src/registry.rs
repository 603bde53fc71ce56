//! The open connections by their ids.

use vstd::hash_map::StringHashMap;
use vstd::prelude::*;

use crate::protocol::{Event, EventView};

verus! {

/// The open connections, each under the id that the host gave it.
#[verifier::reject_recursive_types(C)]
pub struct Registry<C> {
    connections: StringHashMap<C>,
}

impl<C> View for Registry<C> {
    type V = Map<Seq<char>, C>;

    closed spec fn view(&self) -> Map<Seq<char>, C> {
        self.connections@
    }
}

/// What a call learns that looks for a connection.
pub open spec fn found<C>(connections: Map<Seq<char>, C>, connection_id: Seq<char>) -> EventView {
    if connections.contains_key(connection_id) {
        EventView::Done
    } else {
        EventView::Missing
    }
}

impl<C> Registry<C> {
    /// No open connection.
    pub fn new() -> (r: Registry<C>)
        ensures
            r@ == Map::<Seq<char>, C>::empty(),
    {
        Registry { connections: StringHashMap::new() }
    }

    /// Keeps a connection under an id. A connection that was kept under the id is dropped.
    pub fn store(&mut self, connection_id: String, connection: C)
        ensures
            final(self)@ == old(self)@.insert(connection_id@, connection),
    {
        self.connections.insert(connection_id, connection);
    }

    /// The connection that is kept under an id.
    pub fn find(&self, connection_id: &str) -> (r: Option<&C>)
        ensures
            match r {
                Some(connection) => self@.contains_key(connection_id@) && *connection
                    == self@[connection_id@],
                None => !self@.contains_key(connection_id@),
            },
    {
        self.connections.get(connection_id)
    }

    /// Drops the connection that is kept under an id, and says whether there was one.
    pub fn remove(&mut self, connection_id: &str) -> (r: bool)
        ensures
            r == old(self)@.contains_key(connection_id@),
            final(self)@ == old(self)@.remove(connection_id@),
    {
        let existed = self.connections.contains_key(connection_id);
        self.connections.remove(connection_id);
        existed
    }

    /// Answers a call that looks for a connection.
    pub fn answer_find(&self, connection_id: &str) -> (r: Event)
        ensures
            r@ == found(self@, connection_id@),
    {
        match self.find(connection_id) {
            Some(_) => Event::Done,
            None => Event::Missing,
        }
    }

    /// Answers a call that closes a connection.
    pub fn answer_remove(&mut self, connection_id: &str) -> (r: Event)
        ensures
            r@ == EventView::Removed(old(self)@.contains_key(connection_id@)),
            final(self)@ == old(self)@.remove(connection_id@),
    {
        Event::Removed(self.remove(connection_id))
    }
}

/// A connection that was stored is found under its id until that id is stored anew or removed;
/// one that was removed is not found; and neither touches another id.
pub proof fn registry_keeps_what_is_stored<C>(
    connections: Map<Seq<char>, C>,
    id: Seq<char>,
    other: Seq<char>,
    connection: C,
)
    requires
        id != other,
    ensures
        connections.insert(id, connection).contains_key(id),
        connections.insert(id, connection)[id] == connection,
        connections.insert(id, connection).contains_key(other) == connections.contains_key(other),
        connections.contains_key(other) ==> connections.insert(id, connection)[other]
            == connections[other],
        !connections.remove(id).contains_key(id),
        !connections.insert(id, connection).remove(id).contains_key(id),
        connections.remove(id).contains_key(other) == connections.contains_key(other),
        connections.contains_key(other) ==> connections.remove(id)[other] == connections[other],
{
}

} // verus!
