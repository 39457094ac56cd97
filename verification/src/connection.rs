//! Connection manager: the table of live logical connections.
//!
//! The manager owns one entry per live connection id. A CONNECT for a fresh
//! id adds exactly one entry; a duplicate CONNECT is a no-op; DATA for an
//! unknown id is ignored; CLOSE removes the entry; shutdown removes them
//! all. The entry holds the sending end of the connection's bounded inbound
//! channel and the handle of its handler task; dropping the entry closes
//! the channel, which signals the handler to stop.

use crate::protocol::{
    build_close, build_connected, build_data, build_error, build_pong, spec_message_bytes, MsgType,
    Proto,
};
use vstd::prelude::*;

verus! {

/// Relies on tokio::sync::mpsc::Sender: the sending end of a bounded
/// channel. The library only stores and hands out values of it; every send
/// happens outside the library.
#[verifier::external_type_specification]
#[verifier::external_body]
#[verifier::reject_recursive_types(T)]
pub struct ExSender<T>(tokio::sync::mpsc::Sender<T>);

/// Relies on tokio::task::JoinHandle: an owned handle to a spawned task.
/// The library only stores it so that it lives as long as the table entry;
/// dropping it detaches the task.
#[verifier::external_type_specification]
#[verifier::external_body]
#[verifier::reject_recursive_types(T)]
pub struct ExJoinHandle<T>(tokio::task::JoinHandle<T>);

/// Relies on tokio::task::JoinError: the error a finished task's handle
/// reports. Declared only because JoinHandle's interface names it; the
/// library never touches a value of it.
#[verifier::external_type_specification]
#[verifier::external_body]
pub struct ExJoinError(tokio::task::JoinError);

/// One live logical connection: the sending end of its inbound data channel
/// and the handle of the task that bridges it to the local socket.
pub struct ActiveConnection {
    /// Channel towards the connection's local-socket writer.
    pub data_tx: tokio::sync::mpsc::Sender<Vec<u8>>,
    /// Handle of the spawned handler task.
    pub handle: tokio::task::JoinHandle<()>,
}

struct ConnEntry {
    client_id: u32,
    conn: ActiveConnection,
}

/// No two entries share a connection id.
spec fn distinct_ids(entries: Seq<ConnEntry>) -> bool {
    forall|i: int, j: int|
        0 <= i < j < entries.len() ==> entries[i].client_id != entries[j].client_id
}

/// The table a sequence of entries stands for.
spec fn map_of(entries: Seq<ConnEntry>) -> Map<u32, ActiveConnection>
    decreases entries.len(),
{
    if entries.len() == 0 {
        Map::empty()
    } else {
        map_of(entries.drop_last()).insert(entries.last().client_id, entries.last().conn)
    }
}

proof fn lemma_map_of_dom(entries: Seq<ConnEntry>)
    ensures
        map_of(entries).dom().finite(),
        forall|id: u32|
            map_of(entries).dom().contains(id) <==> exists|i: int|
                0 <= i < entries.len() && entries[i].client_id == id,
        distinct_ids(entries) ==> map_of(entries).dom().len() == entries.len(),
    decreases entries.len(),
{
    if entries.len() == 0 {
        assert(map_of(entries).dom() =~= Set::<u32>::empty());
    } else {
        let dl = entries.drop_last();
        let last = entries.last();
        lemma_map_of_dom(dl);
        assert(map_of(entries).dom() =~= map_of(dl).dom().insert(last.client_id));
        assert forall|id: u32| map_of(entries).dom().contains(id) implies exists|i: int|
            0 <= i < entries.len() && entries[i].client_id == id by {
            if id == last.client_id {
                assert(entries[entries.len() - 1].client_id == id);
            } else {
                let i = choose|i: int| 0 <= i < dl.len() && dl[i].client_id == id;
                assert(entries[i].client_id == id);
            }
        }
        assert forall|id: u32|
            (exists|i: int| 0 <= i < entries.len() && entries[i].client_id == id)
            implies map_of(entries).dom().contains(id) by {
            let i = choose|i: int| 0 <= i < entries.len() && entries[i].client_id == id;
            if i < entries.len() - 1 {
                assert(dl[i].client_id == id);
            }
        }
        if distinct_ids(entries) {
            assert(distinct_ids(dl));
            assert forall|i: int| 0 <= i < dl.len() implies dl[i].client_id != last.client_id by {
                assert(entries[i].client_id != entries[entries.len() - 1].client_id);
            }
            assert(!map_of(dl).dom().contains(last.client_id));
        }
    }
}

proof fn lemma_map_of_index(entries: Seq<ConnEntry>, i: int)
    requires
        distinct_ids(entries),
        0 <= i < entries.len(),
    ensures
        map_of(entries).dom().contains(entries[i].client_id),
        map_of(entries)[entries[i].client_id] == entries[i].conn,
    decreases entries.len(),
{
    let dl = entries.drop_last();
    if i == entries.len() - 1 {
        lemma_map_of_dom(entries);
    } else {
        assert(distinct_ids(dl));
        lemma_map_of_index(dl, i);
        assert(entries[i].client_id != entries[entries.len() - 1].client_id);
    }
}

proof fn lemma_map_of_remove(entries: Seq<ConnEntry>, i: int)
    requires
        distinct_ids(entries),
        0 <= i < entries.len(),
    ensures
        map_of(entries.remove(i)) == map_of(entries).remove(entries[i].client_id),
    decreases entries.len(),
{
    let id = entries[i].client_id;
    let dl = entries.drop_last();
    let last = entries.last();
    assert(distinct_ids(dl));
    if i == entries.len() - 1 {
        assert(entries.remove(i) =~= dl);
        lemma_map_of_dom(dl);
        assert forall|k: int| 0 <= k < dl.len() implies dl[k].client_id != id by {
            assert(entries[k].client_id != entries[entries.len() - 1].client_id);
        }
        assert(!map_of(dl).dom().contains(id));
        assert(map_of(entries).remove(id) =~= map_of(dl));
    } else {
        let shorter = entries.remove(i);
        assert(shorter.len() == entries.len() - 1);
        assert(shorter.drop_last() =~= dl.remove(i));
        assert(shorter.last() == last);
        lemma_map_of_remove(dl, i);
        assert(entries[i].client_id != entries[entries.len() - 1].client_id);
        assert(map_of(shorter) == map_of(dl).remove(id).insert(last.client_id, last.conn));
        assert(map_of(dl).remove(id).insert(last.client_id, last.conn) =~= map_of(dl).insert(
            last.client_id,
            last.conn,
        ).remove(id));
    }
}

/// Manages all live logical connections of one tunnel session.
pub struct ConnectionManager {
    connections: Vec<ConnEntry>,
}

impl View for ConnectionManager {
    type V = Map<u32, ActiveConnection>;

    /// The table as a map from connection id to its live entry.
    closed spec fn view(&self) -> Map<u32, ActiveConnection> {
        map_of(self.connections@)
    }
}

impl ConnectionManager {
    /// The table's internal invariant: one entry per connection id.
    pub closed spec fn wf(self) -> bool {
        distinct_ids(self.connections@)
    }

    /// A fresh manager with no live connections.
    pub fn new() -> (m: ConnectionManager)
        ensures
            m.wf(),
            m@ == Map::<u32, ActiveConnection>::empty(),
            m@.dom().finite(),
    {
        ConnectionManager { connections: Vec::new() }
    }

    fn find_index(&self, client_id: u32) -> (r: Option<usize>)
        ensures
            match r {
                Some(i) => i < self.connections@.len() && self.connections@[i as int].client_id
                    == client_id,
                None => forall|i: int|
                    0 <= i < self.connections@.len() ==> self.connections@[i].client_id
                        != client_id,
            },
    {
        let mut k: usize = 0;
        while k < self.connections.len()
            invariant
                k <= self.connections@.len(),
                forall|i: int| 0 <= i < k ==> self.connections@[i].client_id != client_id,
            decreases self.connections@.len() - k,
        {
            if self.connections[k].client_id == client_id {
                return Some(k);
            }
            k += 1;
        }
        None
    }

    /// Whether a connection id is live.
    pub fn contains(&self, client_id: u32) -> (b: bool)
        requires
            self.wf(),
        ensures
            b == self@.dom().contains(client_id),
    {
        proof {
            lemma_map_of_dom(self.connections@);
        }
        match self.find_index(client_id) {
            Some(_) => true,
            None => false,
        }
    }

    /// How many connections are live.
    pub fn len(&self) -> (n: usize)
        requires
            self.wf(),
        ensures
            n == self@.dom().len(),
    {
        proof {
            lemma_map_of_dom(self.connections@);
        }
        self.connections.len()
    }

    /// Record a CONNECT: a fresh id gets exactly one new entry and is
    /// accepted; a duplicate CONNECT for a live id leaves the table exactly
    /// as it was and is refused, so no second handler is ever recorded.
    pub fn handle_connect(&mut self, client_id: u32, conn: ActiveConnection) -> (accepted: bool)
        requires
            old(self).wf(),
        ensures
            final(self).wf(),
            final(self)@.dom().finite(),
            accepted == !old(self)@.dom().contains(client_id),
            accepted ==> final(self)@ == old(self)@.insert(client_id, conn),
            !accepted ==> *final(self) == *old(self),
    {
        proof {
            lemma_map_of_dom(self.connections@);
        }
        match self.find_index(client_id) {
            Some(i) => {
                proof {
                    assert(self.connections@[i as int].client_id == client_id);
                }
                false
            },
            None => {
                self.connections.push(ConnEntry { client_id, conn });
                proof {
                    lemma_map_of_dom(self.connections@);
                    assert(self.connections@.drop_last() =~= old(self).connections@);
                    assert forall|i: int, j: int|
                        0 <= i < j < self.connections@.len() implies self.connections@[i].client_id
                        != self.connections@[j].client_id by {
                        if j < self.connections@.len() - 1 {
                            assert(old(self).connections@[i].client_id != old(
                                self,
                            ).connections@[j].client_id);
                        } else {
                            assert(old(self).connections@[i].client_id != client_id);
                        }
                    }
                }
                true
            },
        }
    }

    /// Look up the inbound channel for a DATA message. An unknown id yields
    /// nothing — the payload is to be dropped — and the table is untouched
    /// either way (the receiver is shared).
    pub fn handle_data(&self, client_id: u32) -> (r: Option<&tokio::sync::mpsc::Sender<Vec<u8>>>)
        requires
            self.wf(),
        ensures
            match r {
                Some(tx) => self@.dom().contains(client_id) && *tx == self@[client_id].data_tx,
                None => !self@.dom().contains(client_id),
            },
    {
        proof {
            lemma_map_of_dom(self.connections@);
        }
        match self.find_index(client_id) {
            Some(i) => {
                proof {
                    lemma_map_of_index(self.connections@, i as int);
                }
                Some(&self.connections[i].conn.data_tx)
            },
            None => None,
        }
    }

    /// Record a CLOSE: drop the entry for the id if it is live, which
    /// closes its inbound channel and so signals the handler to stop. A
    /// subsequent DATA for the id is again treated as unknown. No-op for an
    /// unknown id.
    pub fn handle_close(&mut self, client_id: u32)
        requires
            old(self).wf(),
        ensures
            final(self).wf(),
            final(self)@.dom().finite(),
            final(self)@ == old(self)@.remove(client_id),
    {
        proof {
            lemma_map_of_dom(self.connections@);
        }
        match self.find_index(client_id) {
            None => {
                proof {
                    assert(old(self)@.remove(client_id) =~= old(self)@);
                }
            },
            Some(i) => {
                proof {
                    lemma_map_of_remove(old(self).connections@, i as int);
                }
                let _removed = self.connections.remove(i);
                proof {
                    lemma_map_of_dom(self.connections@);
                    let entries = old(self).connections@;
                    assert forall|a: int, b: int|
                        0 <= a < b < self.connections@.len() implies self.connections@[a].client_id
                        != self.connections@[b].client_id by {
                        let a0 = if a < i {
                            a
                        } else {
                            a + 1
                        };
                        let b0 = if b < i {
                            b
                        } else {
                            b + 1
                        };
                        assert(self.connections@[a] == entries[a0]);
                        assert(self.connections@[b] == entries[b0]);
                        assert(entries[a0].client_id != entries[b0].client_id);
                    }
                }
            },
        }
    }

    /// Answer a PING with a PONG for the same connection id, whether or not
    /// that id has a live connection. The table is untouched.
    pub fn handle_ping(&self, client_id: u32) -> (r: Vec<u8>)
        ensures
            r@ == spec_message_bytes(MsgType::Pong, Proto::Tcp, client_id, 0, Seq::empty()),
    {
        build_pong(client_id)
    }

    /// Tear down every live connection: the table ends empty, and each
    /// dropped entry closes its inbound channel. Used when the outer
    /// transport session ends.
    pub fn shutdown(&mut self)
        requires
            old(self).wf(),
        ensures
            final(self).wf(),
            final(self)@ == Map::<u32, ActiveConnection>::empty(),
    {
        self.connections.clear();
    }
}

/// A CONNECT for a fresh id creates exactly one live entry: the table it
/// leaves holds that id, and exactly one connection more than before.
pub proof fn lemma_connect_adds_exactly_one(
    m: Map<u32, ActiveConnection>,
    client_id: u32,
    conn: ActiveConnection,
)
    requires
        m.dom().finite(),
        !m.dom().contains(client_id),
    ensures
        m.insert(client_id, conn).dom().contains(client_id),
        m.insert(client_id, conn).dom().len() == m.dom().len() + 1,
{
    assert(m.insert(client_id, conn).dom() =~= m.dom().insert(client_id));
}

/// After a CLOSE removed a connection id, the id is no longer live in the
/// table the CLOSE left, so a later DATA for it takes the unknown path.
pub proof fn lemma_closed_id_is_unknown(m: Map<u32, ActiveConnection>, client_id: u32)
    ensures
        !m.remove(client_id).dom().contains(client_id),
{
}

/// What a per-connection handler observed on its local socket.
pub enum LocalEvent {
    /// The dial to the local service failed; the text describes the failure.
    DialFailed { message: String },
    /// The local socket is ready.
    Established,
    /// One chunk read from the local socket.
    DataRead { data: Vec<u8> },
    /// The local read side ended: end-of-stream or a read error.
    ReadEnded,
}

/// The frame a handler owes the runner for one local event: ERROR with the
/// failure text for a failed dial, CONNECTED once the socket is ready, DATA
/// for each chunk read, CLOSE when the local read side ends.
pub open spec fn spec_handler_frame(proto: Proto, client_id: u32, event: LocalEvent) -> Seq<u8> {
    match event {
        LocalEvent::DialFailed { message } => spec_message_bytes(
            MsgType::Error,
            proto,
            client_id,
            0,
            vstd::utf8::encode_utf8(message@),
        ),
        LocalEvent::Established => spec_message_bytes(
            MsgType::Connected,
            proto,
            client_id,
            0,
            Seq::empty(),
        ),
        LocalEvent::DataRead { data } => spec_message_bytes(
            MsgType::Data,
            proto,
            client_id,
            0,
            data@,
        ),
        LocalEvent::ReadEnded => spec_message_bytes(
            MsgType::Close,
            proto,
            client_id,
            0,
            Seq::empty(),
        ),
    }
}

/// Encode the one frame a handler sends for a local event.
pub fn handler_frame(proto: Proto, client_id: u32, event: LocalEvent) -> (r: Vec<u8>)
    ensures
        r@ == spec_handler_frame(proto, client_id, event),
{
    match event {
        LocalEvent::DialFailed { message } => build_error(proto, client_id, message.as_str()),
        LocalEvent::Established => build_connected(proto, client_id),
        LocalEvent::DataRead { data } => build_data(proto, client_id, data.as_slice()),
        LocalEvent::ReadEnded => build_close(proto, client_id),
    }
}

} // verus!
