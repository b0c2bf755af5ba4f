//! The table of live connections: which address each came from and which
//! user it is logged in as.

use crate::consts::{ERR_LOGIN_BANNED, ERR_MAX_CONN_PER_IP};
use crate::seqs::{first_match, keep, lemma_first_match, lemma_first_match_is, lemma_keep};
use vstd::prelude::*;

verus! {

/// One live connection.
#[derive(Debug, Clone, Copy, PartialEq, Eq, Structural)]
pub struct Session {
    /// The id of the connection.
    pub conn_id: usize,
    /// The user that the connection is logged in as, once it is.
    pub id: Option<usize>,
    /// The address of the peer.
    pub ip: u128,
}

/// The test that a session comes from an address.
pub open spec fn from_test(ip: u128) -> spec_fn(Session) -> bool {
    |s: Session| s.ip == ip
}

/// The test that a session is another connection than `conn_id`.
pub open spec fn other_conn_test(conn_id: usize) -> spec_fn(Session) -> bool {
    |s: Session| s.conn_id != conn_id
}

/// The test that a session is not logged in as `user`.
pub open spec fn other_user_test(user: usize) -> spec_fn(Session) -> bool {
    |s: Session| s.id != Some(user)
}

/// The test that a session is logged in as `user`.
pub open spec fn user_test(user: usize) -> spec_fn(Session) -> bool {
    |s: Session| s.id == Some(user)
}

/// The test that a session is the connection `conn_id`.
pub open spec fn conn_test(conn_id: usize) -> spec_fn(Session) -> bool {
    |s: Session| s.conn_id == conn_id
}

/// The number of live connections from an address.
pub open spec fn active(sessions: Seq<Session>, ip: u128) -> nat {
    keep(sessions, from_test(ip)).len()
}

/// The registry as a mathematical value.
pub struct RegistryView {
    /// The live connections in the order in which they were let in.
    pub sessions: Seq<Session>,
    /// The id that the next connection gets.
    pub next_conn: usize,
}

impl RegistryView {
    /// The index of a connection, or -1.
    pub open spec fn index(self, conn_id: usize) -> int {
        first_match(self.sessions, conn_test(conn_id))
    }

    /// The rules of the registry: connection ids were handed out and grow
    /// along the list.
    pub open spec fn ok(self) -> bool {
        &&& forall|i: int|
            0 <= i < self.sessions.len() ==> (#[trigger] self.sessions[i]).conn_id < self.next_conn
        &&& forall|i: int, j: int|
            0 <= i < j < self.sessions.len() ==> (#[trigger] self.sessions[i]).conn_id < (
            #[trigger] self.sessions[j]).conn_id
    }

    /// What the registry answers to a peer that connects from `ip`.
    ///
    /// A peer from the address of a banned account is refused with
    /// `ERR_LOGIN_BANNED`; a peer from an address that already has `limit`
    /// connections with `ERR_MAX_CONN_PER_IP`; any other peer gets the next
    /// connection id. `Err(None)` says that the ids have run out.
    pub open spec fn admission(self, limit: u32, banned: bool, ip: u128) -> Result<
        usize,
        Option<u8>,
    > {
        if banned {
            Err(Some(ERR_LOGIN_BANNED))
        } else if active(self.sessions, ip) >= limit {
            Err(Some(ERR_MAX_CONN_PER_IP))
        } else if self.next_conn == usize::MAX {
            Err(None)
        } else {
            Ok(self.next_conn)
        }
    }

    /// The registry after a peer from `ip` was let in.
    pub open spec fn enter(self, ip: u128) -> RegistryView {
        RegistryView {
            sessions: self.sessions.push(Session { conn_id: self.next_conn, id: None, ip }),
            next_conn: (self.next_conn + 1) as usize,
        }
    }

    /// The registry after a connection ended.
    pub open spec fn close(self, conn_id: usize) -> RegistryView {
        RegistryView { sessions: keep(self.sessions, other_conn_test(conn_id)), ..self }
    }

    /// The registry after every connection of a user ended.
    pub open spec fn expel(self, user: usize) -> RegistryView {
        RegistryView { sessions: keep(self.sessions, other_user_test(user)), ..self }
    }

    /// The registry after the connection at index `i` logged in as `user`.
    pub open spec fn login(self, i: int, user: usize) -> RegistryView {
        RegistryView {
            sessions: self.sessions.update(i, Session { id: Some(user), ..self.sessions[i] }),
            ..self
        }
    }
}

/// The ids of the connections of a list of sessions.
pub open spec fn conn_ids(sessions: Seq<Session>) -> Seq<usize> {
    Seq::new(sessions.len(), |i: int| sessions[i].conn_id)
}

/// Taking sessions out of a list keeps the order and the bound of the
/// connection ids.
pub proof fn lemma_keep_sessions(
    sessions: Seq<Session>,
    p: spec_fn(Session) -> bool,
    next: usize,
)
    requires
        forall|i: int| 0 <= i < sessions.len() ==> (#[trigger] sessions[i]).conn_id < next,
        forall|i: int, j: int|
            0 <= i < j < sessions.len() ==> (#[trigger] sessions[i]).conn_id < (
            #[trigger] sessions[j]).conn_id,
    ensures
        forall|i: int|
            0 <= i < keep(sessions, p).len() ==> (#[trigger] keep(sessions, p)[i]).conn_id < next,
        forall|i: int, j: int|
            0 <= i < j < keep(sessions, p).len() ==> (#[trigger] keep(sessions, p)[i]).conn_id < (
            #[trigger] keep(sessions, p)[j]).conn_id,
    decreases sessions.len(),
{
    if sessions.len() > 0 {
        let head = sessions.drop_last();
        assert forall|i: int| 0 <= i < head.len() implies (#[trigger] head[i]).conn_id < next by {
            assert(head[i] == sessions[i]);
        }
        assert forall|i: int, j: int| 0 <= i < j < head.len() implies (
        #[trigger] head[i]).conn_id < (#[trigger] head[j]).conn_id by {
            assert(head[i] == sessions[i]);
            assert(head[j] == sessions[j]);
        }
        lemma_keep_sessions(head, p, next);
        lemma_keep(head, p);
        let out = keep(sessions, p);
        assert forall|i: int| 0 <= i < out.len() implies (#[trigger] out[i]).conn_id < next by {
            if i >= keep(head, p).len() {
                assert(out[i] == sessions[sessions.len() - 1]);
            }
        }
        assert forall|i: int, j: int| 0 <= i < j < out.len() implies (#[trigger] out[i]).conn_id
            < (#[trigger] out[j]).conn_id by {
            if j >= keep(head, p).len() {
                assert(out[j] == sessions[sessions.len() - 1]);
                let x = keep(head, p)[i];
                assert(head.contains(x));
                let a = choose|a: int| 0 <= a < head.len() && head[a] == x;
                assert(sessions[a] == x);
            }
        }
    }
}

/// Admission respects the limit: where no address had more connections
/// than the limit allows, none has after a peer was let in.
pub proof fn lemma_entry_respects_limit(
    r: RegistryView,
    limit: u32,
    banned: bool,
    ip: u128,
    other: u128,
)
    requires
        r.admission(limit, banned, ip) is Ok,
        active(r.sessions, other) <= limit,
    ensures
        active(r.enter(ip).sessions, other) <= limit,
        active(r.enter(ip).sessions, ip) == active(r.sessions, ip) + 1,
        other != ip ==> active(r.enter(ip).sessions, other) == active(r.sessions, other),
{
    let fresh = Session { conn_id: r.next_conn, id: None, ip };
    assert(r.sessions.push(fresh).drop_last() =~= r.sessions);
}

/// Ending connections never raises the number of connections of an
/// address.
pub proof fn lemma_keep_lowers_active(sessions: Seq<Session>, p: spec_fn(Session) -> bool, ip: u128)
    ensures
        active(keep(sessions, p), ip) <= active(sessions, ip),
    decreases sessions.len(),
{
    if sessions.len() > 0 {
        let head = sessions.drop_last();
        lemma_keep_lowers_active(head, p, ip);
        if p(sessions.last()) {
            assert(keep(sessions, p).drop_last() =~= keep(head, p));
        }
    }
}

/// The table of live connections. It keeps them in the order in which they
/// were let in, so that the receivers of an event come out in one fixed
/// order, and counts the connections of an address from the table itself,
/// so that no count can drift from the connections that are live.
pub struct Registry {
    sessions: Vec<Session>,
    next_conn: usize,
}

impl View for Registry {
    type V = RegistryView;

    closed spec fn view(&self) -> RegistryView {
        RegistryView { sessions: self.sessions@, next_conn: self.next_conn }
    }
}

impl Registry {
    /// Whether the registry keeps its rules.
    pub open spec fn wf(&self) -> bool {
        self@.ok()
    }

    /// A registry without connections.
    pub fn new() -> (registry: Registry)
        ensures
            registry.wf(),
            registry@.sessions.len() == 0,
            registry@.next_conn == 0,
    {
        Registry { sessions: Vec::new(), next_conn: 0 }
    }

    /// The live connections, in the order in which they were let in.
    pub fn sessions(&self) -> (out: &Vec<Session>)
        ensures
            out@ == self@.sessions,
    {
        &self.sessions
    }

    /// Counts the live connections from an address.
    pub fn count_from(&self, ip: u128) -> (n: usize)
        ensures
            n == active(self@.sessions, ip),
    {
        let ghost p = from_test(ip);
        let mut n: usize = 0;
        let mut i: usize = 0;
        while i < self.sessions.len()
            invariant
                i <= self.sessions.len(),
                p == from_test(ip),
                n == keep(self.sessions@.take(i as int), p).len(),
                n <= i,
            decreases self.sessions.len() - i,
        {
            assert(self.sessions@.take(i + 1).drop_last() =~= self.sessions@.take(i as int));
            if self.sessions[i].ip == ip {
                n += 1;
            }
            i += 1;
        }
        assert(self.sessions@.take(self.sessions.len() as int) =~= self.sessions@);
        n
    }

    /// Finds a connection.
    pub fn find(&self, conn_id: usize) -> (found: Option<usize>)
        ensures
            match found {
                Some(i) => i == self@.index(conn_id) && i < self@.sessions.len(),
                None => self@.index(conn_id) < 0,
            },
    {
        let ghost p = conn_test(conn_id);
        proof {
            lemma_first_match(self.sessions@, p);
        }
        let mut i: usize = 0;
        while i < self.sessions.len()
            invariant
                i <= self.sessions.len(),
                p == conn_test(conn_id),
                forall|j: int| 0 <= j < i ==> !p(#[trigger] self.sessions@[j]),
            decreases self.sessions.len() - i,
        {
            if self.sessions[i].conn_id == conn_id {
                proof {
                    lemma_first_match_is(self.sessions@, p, i as int);
                }
                return Some(i);
            }
            i += 1;
        }
        None
    }

    /// Lets in or refuses a peer that connects from `ip`. `banned` says
    /// whether a banned account last logged in from that address. A peer
    /// that is refused leaves the registry as it was.
    pub fn enter(&mut self, limit: u32, banned: bool, ip: u128) -> (out: Result<usize, Option<u8>>)
        requires
            old(self).wf(),
        ensures
            final(self).wf(),
            out == old(self)@.admission(limit, banned, ip),
            final(self)@ == (if out is Ok {
                old(self)@.enter(ip)
            } else {
                old(self)@
            }),
    {
        if banned {
            return Err(Some(ERR_LOGIN_BANNED));
        }
        let count = self.count_from(ip);
        if count >= limit as usize {
            return Err(Some(ERR_MAX_CONN_PER_IP));
        }
        if self.next_conn == usize::MAX {
            return Err(None);
        }
        let conn_id = self.next_conn;
        self.sessions.push(Session { conn_id, id: None, ip });
        self.next_conn = self.next_conn + 1;
        Ok(conn_id)
    }

    /// Ends a connection. A connection that is not live leaves the
    /// registry as it was.
    pub fn close(&mut self, conn_id: usize)
        requires
            old(self).wf(),
        ensures
            final(self).wf(),
            final(self)@ == old(self)@.close(conn_id),
    {
        let ghost before = self@;
        let ghost p = other_conn_test(conn_id);
        let mut left: Vec<Session> = Vec::new();
        let mut i: usize = 0;
        while i < self.sessions.len()
            invariant
                i <= self.sessions.len(),
                p == other_conn_test(conn_id),
                left@ == keep(self.sessions@.take(i as int), p),
            decreases self.sessions.len() - i,
        {
            assert(self.sessions@.take(i + 1).drop_last() =~= self.sessions@.take(i as int));
            if self.sessions[i].conn_id != conn_id {
                left.push(self.sessions[i]);
            }
            i += 1;
        }
        assert(self.sessions@.take(self.sessions.len() as int) =~= self.sessions@);
        self.sessions = left;
        proof {
            lemma_keep_sessions(before.sessions, p, before.next_conn);
        }
    }

    /// Ends every connection of a user and gives back the ids of the
    /// connections that ended.
    pub fn expel(&mut self, user: usize) -> (gone: Vec<usize>)
        requires
            old(self).wf(),
        ensures
            final(self).wf(),
            final(self)@ == old(self)@.expel(user),
            gone@ == conn_ids(keep(old(self)@.sessions, user_test(user))),
    {
        let ghost before = self@;
        let ghost p = other_user_test(user);
        let ghost q = user_test(user);
        let mut left: Vec<Session> = Vec::new();
        let mut gone: Vec<usize> = Vec::new();
        let mut i: usize = 0;
        assert(gone@ =~= conn_ids(keep(self.sessions@.take(0), q)));
        while i < self.sessions.len()
            invariant
                i <= self.sessions.len(),
                p == other_user_test(user),
                q == user_test(user),
                left@ == keep(self.sessions@.take(i as int), p),
                gone@ == conn_ids(keep(self.sessions@.take(i as int), q)),
            decreases self.sessions.len() - i,
        {
            assert(self.sessions@.take(i + 1).drop_last() =~= self.sessions@.take(i as int));
            let ghost seen = keep(self.sessions@.take(i as int), q);
            let session = self.sessions[i];
            let mine = match session.id {
                Some(id) => id == user,
                None => false,
            };
            if mine {
                gone.push(session.conn_id);
                assert(gone@ =~= conn_ids(seen.push(session)));
            } else {
                left.push(session);
            }
            i += 1;
        }
        assert(self.sessions@.take(self.sessions.len() as int) =~= self.sessions@);
        self.sessions = left;
        proof {
            lemma_keep_sessions(before.sessions, p, before.next_conn);
        }
        gone
    }

    /// Notes that the connection at index `i` is logged in as `user`.
    pub fn login(&mut self, i: usize, user: usize)
        requires
            old(self).wf(),
            i < old(self)@.sessions.len(),
        ensures
            final(self).wf(),
            final(self)@ == old(self)@.login(i as int, user),
    {
        let ghost before = self@;
        self.sessions[i].id = Some(user);
        proof {
            assert(self@.sessions =~= before.sessions.update(
                i as int,
                Session { id: Some(user), ..before.sessions[i as int] },
            ));
            assert forall|x: int| 0 <= x < self@.sessions.len() implies (
            #[trigger] self@.sessions[x]).conn_id == before.sessions[x].conn_id by {}
        }
    }
}

} // verus!
