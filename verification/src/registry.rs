//! The registry of live sessions of one server process. The accept loop
//! adds a session, the session removes itself when it ends, and an observer
//! may count and list them. The caller puts the registry behind one lock and
//! holds that lock for each of these operations as a whole, so that they
//! take effect one after the other.

use vstd::prelude::*;

verus! {

/// Address of the peer of a connection.
#[derive(Clone, Copy, Debug, PartialEq, Eq)]
pub struct PeerAddress {
    pub ip: [u8; 4],
    pub port: u16,
}

/// One accepted connection: its id, the address of its peer, and the handle
/// through which its owner reads and writes.
#[derive(Debug, PartialEq, Eq)]
pub struct Session<H> {
    pub id: u64,
    pub peer: PeerAddress,
    pub handle: H,
}

/// Hands out session ids, each one larger than the one before.
#[derive(Debug)]
pub struct SessionIds {
    next: u64,
}

impl SessionIds {
    /// The id that the next call of `allocate` returns, if there is one
    /// left.
    pub closed spec fn upcoming(&self) -> u64 {
        self.next
    }

    /// A source whose first id is 1.
    pub fn new() -> (r: SessionIds)
        ensures
            r.upcoming() == 1,
    {
        SessionIds { next: 1 }
    }

    /// A source whose first id is `first`.
    pub fn starting_at(first: u64) -> (r: SessionIds)
        ensures
            r.upcoming() == first,
    {
        SessionIds { next: first }
    }

    /// Returns a fresh id, larger than every id returned before, or `None`
    /// once the ids have run out.
    pub fn allocate(&mut self) -> (r: Option<u64>)
        ensures
            old(self).upcoming() < u64::MAX ==> r == Some(old(self).upcoming())
                && final(self).upcoming() == old(self).upcoming() + 1,
            old(self).upcoming() == u64::MAX ==> r is None && final(self).upcoming() == u64::MAX,
    {
        if self.next == u64::MAX {
            None
        } else {
            let id = self.next;
            self.next = id + 1;
            Some(id)
        }
    }
}

/// The ids of a sequence of sessions, in order.
pub open spec fn session_ids<H>(sessions: Seq<Session<H>>) -> Seq<u64> {
    sessions.map_values(|s: Session<H>| s.id)
}

/// `ids` with `id` added at the end, unless it is there already.
pub open spec fn ids_with(ids: Seq<u64>, id: u64) -> Seq<u64> {
    if ids.contains(id) {
        ids
    } else {
        ids.push(id)
    }
}

/// `ids` without `id`, the others in their order.
pub open spec fn ids_without(ids: Seq<u64>, id: u64) -> Seq<u64> {
    if ids.contains(id) {
        ids.remove(ids.index_of(id))
    } else {
        ids
    }
}

/// The live sessions of a server process, in the order in which they were
/// added. No two of them have the same id.
pub struct ConnectionRegistry<H> {
    sessions: Vec<Session<H>>,
}

impl<H> View for ConnectionRegistry<H> {
    type V = Seq<Session<H>>;

    closed spec fn view(&self) -> Seq<Session<H>> {
        self.sessions@
    }
}

impl<H> ConnectionRegistry<H> {
    /// No two registered sessions have the same id.
    #[verifier::type_invariant]
    spec fn distinct_ids(self) -> bool {
        session_ids(self.sessions@).no_duplicates()
    }

    /// The ids of the registered sessions, in the order in which they were
    /// added.
    pub open spec fn ids(&self) -> Seq<u64> {
        session_ids(self@)
    }

    /// A registry without sessions.
    pub fn new() -> (r: ConnectionRegistry<H>)
        ensures
            r@ == Seq::<Session<H>>::empty(),
    {
        ConnectionRegistry { sessions: Vec::new() }
    }

    /// Number of registered sessions. No id is registered twice, so this is
    /// also the number of registered ids.
    pub fn count(&self) -> (n: usize)
        ensures
            n == self@.len(),
            n == self.ids().len(),
            self.ids().no_duplicates(),
    {
        proof {
            use_type_invariant(self);
        }
        self.sessions.len()
    }

    /// Position of the session with id `id`, if it is registered.
    fn position(&self, id: u64) -> (r: Option<usize>)
        ensures
            self.ids().contains(id) ==> r is Some && r->Some_0 == self.ids().index_of(id)
                && r->Some_0 < self@.len(),
            !self.ids().contains(id) ==> r is None,
    {
        proof {
            use_type_invariant(self);
        }
        let mut i: usize = 0;
        while i < self.sessions.len()
            invariant
                i <= self.sessions@.len(),
                forall|j: int| 0 <= j < i ==> session_ids(self.sessions@)[j] != id,
                session_ids(self.sessions@).no_duplicates(),
            decreases self.sessions@.len() - i,
        {
            if self.sessions[i].id == id {
                proof {
                    let ids = session_ids(self.sessions@);
                    assert(ids[i as int] == id);
                    let k = ids.index_of(id);
                    assert(0 <= k < ids.len() && ids[k] == id);
                }
                return Some(i);
            }
            i = i + 1;
        }
        None
    }

    /// True when a session with id `id` is registered.
    pub fn contains(&self, id: u64) -> (r: bool)
        ensures
            r == self.ids().contains(id),
    {
        self.position(id).is_some()
    }

    /// Registers `session` behind the others, unless a session with its id
    /// is registered already: then the registry stays as it is, and the
    /// session is handed back as the error.
    pub fn add(&mut self, session: Session<H>) -> (r: Result<(), Session<H>>)
        ensures
            old(self).ids().contains(session.id) ==> r == Err::<(), Session<H>>(session)
                && final(self)@ == old(self)@,
            !old(self).ids().contains(session.id) ==> r is Ok && final(self)@ == old(self)@.push(
                session,
            ),
            final(self).ids() == ids_with(old(self).ids(), session.id),
            final(self).ids().no_duplicates(),
    {
        proof {
            use_type_invariant(&*self);
        }
        if self.position(session.id).is_some() {
            return Err(session);
        }
        let ghost id = session.id;
        let mut sessions: Vec<Session<H>> = Vec::new();
        std::mem::swap(&mut self.sessions, &mut sessions);
        let ghost before = sessions@;
        sessions.push(session);
        proof {
            assert(session_ids(sessions@) =~= session_ids(before).push(id));
        }
        std::mem::swap(&mut self.sessions, &mut sessions);
        Ok(())
    }

    /// Takes the session with id `id` out of the registry and returns it;
    /// the others keep their order. Returns `None`, and changes nothing,
    /// when no such session is registered.
    pub fn remove_by_id(&mut self, id: u64) -> (removed: Option<Session<H>>)
        ensures
            old(self).ids().contains(id) ==> removed == Some(
                old(self)@[old(self).ids().index_of(id)],
            ) && removed->Some_0.id == id && final(self)@ == old(self)@.remove(
                old(self).ids().index_of(id),
            ),
            !old(self).ids().contains(id) ==> removed is None && final(self)@ == old(self)@,
            final(self).ids() == ids_without(old(self).ids(), id),
            !final(self).ids().contains(id),
            final(self).ids().no_duplicates(),
    {
        proof {
            use_type_invariant(&*self);
        }
        match self.position(id) {
            Some(index) => {
                let mut sessions: Vec<Session<H>> = Vec::new();
                std::mem::swap(&mut self.sessions, &mut sessions);
                let ghost before = sessions@;
                let session = sessions.remove(index);
                proof {
                    let ids = session_ids(before);
                    assert(session_ids(sessions@) =~= ids.remove(index as int));
                    assert(ids[index as int] == id);
                    lemma_remove_distinct(ids, index as int);
                }
                std::mem::swap(&mut self.sessions, &mut sessions);
                Some(session)
            },
            None => None,
        }
    }

    /// The ids of the registered sessions, in the order in which they were
    /// added.
    pub fn session_id_list(&self) -> (list: Vec<u64>)
        ensures
            list@ == self.ids(),
    {
        let mut list: Vec<u64> = Vec::new();
        let mut i: usize = 0;
        while i < self.sessions.len()
            invariant
                i <= self.sessions@.len(),
                list@ == session_ids(self.sessions@).take(i as int),
            decreases self.sessions@.len() - i,
        {
            list.push(self.sessions[i].id);
            assert(list@ =~= session_ids(self.sessions@).take(i + 1));
            i = i + 1;
        }
        assert(list@ =~= session_ids(self.sessions@));
        list
    }

    /// The id and the peer address of each registered session, in the order
    /// in which they were added.
    pub fn peer_list(&self) -> (list: Vec<(u64, PeerAddress)>)
        ensures
            list@ == self@.map_values(|s: Session<H>| (s.id, s.peer)),
    {
        let mut list: Vec<(u64, PeerAddress)> = Vec::new();
        let mut i: usize = 0;
        while i < self.sessions.len()
            invariant
                i <= self.sessions@.len(),
                list@ == self.sessions@.map_values(|s: Session<H>| (s.id, s.peer)).take(i as int),
            decreases self.sessions@.len() - i,
        {
            list.push((self.sessions[i].id, self.sessions[i].peer));
            assert(list@ =~= self.sessions@.map_values(|s: Session<H>| (s.id, s.peer)).take(
                i + 1,
            ));
            i = i + 1;
        }
        assert(list@ =~= self.sessions@.map_values(|s: Session<H>| (s.id, s.peer)));
        list
    }

    /// Calls `visitor` on each registered session, in the order in which
    /// they were added.
    pub fn for_each<F: Fn(&Session<H>)>(&self, visitor: F)
        requires
            forall|i: int| 0 <= i < self@.len() ==> call_requires(visitor, (&#[trigger] self@[i],)),
        ensures
            forall|i: int|
                0 <= i < self@.len() ==> call_ensures(visitor, (&#[trigger] self@[i],), ()),
    {
        let mut i: usize = 0;
        assert forall|j: int| 0 <= j < self.sessions@.len() implies call_requires(
            visitor,
            (&#[trigger] self.sessions@[j],),
        ) by {
            assert(self.sessions@[j] == self@[j]);
        }
        while i < self.sessions.len()
            invariant
                i <= self.sessions@.len(),
                forall|j: int|
                    0 <= j < self.sessions@.len() ==> call_requires(
                        visitor,
                        (&#[trigger] self.sessions@[j],),
                    ),
                forall|j: int|
                    0 <= j < i ==> call_ensures(visitor, (&#[trigger] self.sessions@[j],), ()),
            decreases self.sessions@.len() - i,
        {
            visitor(&self.sessions[i]);
            i = i + 1;
        }
        assert forall|j: int| 0 <= j < self@.len() implies call_ensures(
            visitor,
            (&#[trigger] self@[j],),
            (),
        ) by {
            assert(self.sessions@[j] == self@[j]);
        }
    }

    /// The session with id `id`, if it is registered.
    pub fn get(&self, id: u64) -> (r: Option<&Session<H>>)
        ensures
            self.ids().contains(id) ==> r is Some && *r->Some_0 == self@[self.ids().index_of(id)]
                && r->Some_0.id == id,
            !self.ids().contains(id) ==> r is None,
    {
        match self.position(id) {
            Some(index) => {
                assert(session_ids(self.sessions@)[index as int] == id);
                Some(&self.sessions[index])
            },
            None => None,
        }
    }
}

/// Taking one element out of a sequence without duplicates leaves a sequence
/// without duplicates that no longer holds that element.
pub proof fn lemma_remove_distinct(ids: Seq<u64>, index: int)
    requires
        ids.no_duplicates(),
        0 <= index < ids.len(),
    ensures
        ids.remove(index).no_duplicates(),
        !ids.remove(index).contains(ids[index]),
        forall|id: u64| id != ids[index] ==> (ids.remove(index).contains(id) <==> ids.contains(id)),
{
    let rest = ids.remove(index);
    assert forall|i: int, j: int|
        0 <= i < rest.len() && 0 <= j < rest.len() && i != j implies rest[i] != rest[j] by {
        let a = if i < index { i } else { i + 1 };
        let b = if j < index { j } else { j + 1 };
        assert(rest[i] == ids[a] && rest[j] == ids[b]);
    }
    assert forall|id: u64| id != ids[index] implies (rest.contains(id) <==> ids.contains(id)) by {
        if ids.contains(id) {
            let k = ids.index_of(id);
            let m = if k < index { k } else { k - 1 };
            assert(rest[m] == id);
        }
        if rest.contains(id) {
            let k = rest.index_of(id);
            let m = if k < index { k } else { k + 1 };
            assert(ids[m] == id);
        }
    }
    if rest.contains(ids[index]) {
        let k = rest.index_of(ids[index]);
        let m = if k < index { k } else { k + 1 };
        assert(ids[m] == ids[index]);
    }
}

/// One change to a registry: a session with this id connects, or the
/// session with this id disconnects.
#[derive(Clone, Copy, Debug, PartialEq, Eq, Structural)]
pub enum RegistryOp {
    Connect(u64),
    Disconnect(u64),
}

/// The registered ids after one change.
pub open spec fn ids_after(ids: Seq<u64>, op: RegistryOp) -> Seq<u64> {
    match op {
        RegistryOp::Connect(id) => ids_with(ids, id),
        RegistryOp::Disconnect(id) => ids_without(ids, id),
    }
}

/// The registered ids after the changes `ops`, made one after the other.
pub open spec fn replay(ids: Seq<u64>, ops: Seq<RegistryOp>) -> Seq<u64>
    decreases ops.len(),
{
    if ops.len() == 0 {
        ids
    } else {
        ids_after(replay(ids, ops.drop_last()), ops.last())
    }
}

/// Whether the session with id `id` is open after the changes `ops`: what
/// the last change that names it says, or `initially` when none does.
pub open spec fn open_after(initially: bool, ops: Seq<RegistryOp>, id: u64) -> bool
    decreases ops.len(),
{
    if ops.len() == 0 {
        initially
    } else if ops.last() == RegistryOp::Connect(id) {
        true
    } else if ops.last() == RegistryOp::Disconnect(id) {
        false
    } else {
        open_after(initially, ops.drop_last(), id)
    }
}

/// The ids of the sessions that are open after the changes `ops`.
pub open spec fn open_sessions(ids: Seq<u64>, ops: Seq<RegistryOp>) -> Set<u64> {
    Set::new(|id: u64| open_after(ids.contains(id), ops, id))
}

/// Whatever the order in which connects and disconnects reach the registry,
/// it ends up holding the sessions that are still open, each of them once:
/// no id twice, no id of a session that is gone, and as many entries as
/// there are open sessions.
pub proof fn lemma_replay_holds_open_sessions(ids: Seq<u64>, ops: Seq<RegistryOp>)
    requires
        ids.no_duplicates(),
    ensures
        replay(ids, ops).no_duplicates(),
        forall|id: u64|
            replay(ids, ops).contains(id) <==> #[trigger] open_after(ids.contains(id), ops, id),
        replay(ids, ops).to_set() == open_sessions(ids, ops),
        replay(ids, ops).len() == open_sessions(ids, ops).len(),
    decreases ops.len(),
{
    let now = replay(ids, ops);
    if ops.len() > 0 {
        let before = replay(ids, ops.drop_last());
        lemma_replay_holds_open_sessions(ids, ops.drop_last());
        match ops.last() {
            RegistryOp::Connect(x) => {
                if !before.contains(x) {
                    assert(now[before.len() as int] == x);
                    assert forall|id: u64| now.contains(id) <==> before.contains(id) || id
                        == x by {
                        if before.contains(id) {
                            assert(now[before.index_of(id)] == id);
                        }
                        if now.contains(id) && id != x {
                            assert(before[now.index_of(id)] == id);
                        }
                    }
                }
            },
            RegistryOp::Disconnect(x) => {
                if before.contains(x) {
                    lemma_remove_distinct(before, before.index_of(x));
                }
            },
        }
        assert forall|id: u64| now.contains(id) <==> #[trigger] open_after(
            ids.contains(id),
            ops,
            id,
        ) by {
            assert(before.contains(id) <==> open_after(ids.contains(id), ops.drop_last(), id));
        }
    }
    assert(now.to_set() =~= open_sessions(ids, ops));
    now.unique_seq_to_set();
}

} // verus!
