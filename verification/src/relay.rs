//! The relay's synchronization core: the session registry (identity to
//! outbound queue), the broadcaster that fans an event out to a computed
//! subset of sessions, and the router that dispatches decoded frames.
//!
//! The relay is written as a single-owner state machine: the embedding's
//! per-connection tasks feed it decoded frames one at a time, and drain each
//! session's outbox into the real transport in order. Delivery into an
//! outbox is push-only and strictly FIFO.
use vstd::prelude::*;
use crate::codec::{client_list_event_json, grid_event_json, views_of, encode_client_list_event,
    encode_grid_event};
use crate::decode::Decoded;
use crate::model::wf_grid;

verus! {

/// One live connection: the participant's identity, the connection handle
/// number the embedding hands out, and the queue of frames awaiting delivery
/// to that connection, oldest first.
pub struct Session {
    pub name: String,
    pub conn: u64,
    pub outbox: Vec<String>,
}

/// Whether some session carries the given identity.
pub open spec fn has_name(s: Seq<Session>, n: Seq<char>) -> bool {
    exists|k: int| 0 <= k < s.len() && (#[trigger] s[k]).name@ == n
}

/// No two sessions carry the same identity.
pub open spec fn unique_names(s: Seq<Session>) -> bool {
    forall|k1: int, k2: int|
        0 <= k1 < k2 < s.len() ==> (#[trigger] s[k1]).name@ != (#[trigger] s[k2]).name@
}

/// The identities of the sessions, in registry order.
pub open spec fn session_names(s: Seq<Session>) -> Seq<Seq<char>> {
    s.map_values(|x: Session| x.name@)
}

/// `post` is `pre` with one frame whose text is `payload` enqueued at the
/// back of its outbox; identity, connection and older frames are untouched.
pub open spec fn enqueued(pre: Session, post: Session, payload: Seq<char>) -> bool {
    &&& post.name == pre.name
    &&& post.conn == pre.conn
    &&& post.outbox@.len() == pre.outbox@.len() + 1
    &&& post.outbox@ == pre.outbox@.push(post.outbox@.last())
    &&& post.outbox@.last()@ == payload
}

/// The client list frame that announces the identities of `s`.
pub open spec fn client_list_payload(s: Seq<Session>) -> Seq<char> {
    client_list_event_json(session_names(s))
}

/// Effect of a join under `name` from connection `conn`: the entry for
/// `name` is inserted, or silently replaced if the identity was already
/// taken; afterwards the new client list is enqueued for every session, the
/// joining one included.
pub open spec fn join_rel(pre: Seq<Session>, post: Seq<Session>, name: Seq<char>, conn: u64) -> bool {
    let p = client_list_payload(post);
    &&& has_name(post, name)
    &&& if has_name(pre, name) {
        &&& post.len() == pre.len()
        &&& session_names(post) == session_names(pre)
    } else {
        &&& post.len() == pre.len() + 1
        &&& session_names(post) == session_names(pre).push(name)
    }
    &&& forall|k: int|
        0 <= k < pre.len() && (#[trigger] pre[k]).name@ != name ==> k < post.len() && enqueued(
            pre[k],
            post[k],
            p,
        )
    &&& forall|k: int|
        0 <= k < post.len() && (#[trigger] post[k]).name@ == name ==> post[k].conn == conn
            && post[k].outbox@.len() == 1 && post[k].outbox@[0]@ == p
}

/// Effect of a leave of `name`: the entry is removed if present (a no-op
/// double disconnect otherwise), and either way the resulting client list is
/// enqueued for every remaining session.
pub open spec fn leave_rel(pre: Seq<Session>, post: Seq<Session>, name: Seq<char>) -> bool {
    let p = client_list_payload(post);
    if has_name(pre, name) {
        exists|k0: int|
            0 <= k0 < pre.len() && (#[trigger] pre[k0]).name@ == name && post.len() + 1
                == pre.len() && (forall|k: int| 0 <= k < k0 ==> enqueued(pre[k], #[trigger] post[k], p))
                && (forall|k: int|
                k0 <= k < post.len() ==> enqueued(pre[k + 1], #[trigger] post[k], p))
    } else {
        &&& post.len() == pre.len()
        &&& forall|k: int| 0 <= k < pre.len() ==> enqueued(pre[k], #[trigger] post[k], p)
    }
}

/// Effect of a fan-out of `payload` to everyone but `exclude`: the one
/// session (if any) whose identity equals `exclude` is untouched, every
/// other session has the frame enqueued.
pub open spec fn broadcast_except_rel(
    pre: Seq<Session>,
    post: Seq<Session>,
    payload: Seq<char>,
    exclude: Seq<char>,
) -> bool {
    &&& post.len() == pre.len()
    &&& forall|k: int|
        0 <= k < pre.len() ==> if (#[trigger] pre[k]).name@ == exclude {
            post[k] == pre[k]
        } else {
            enqueued(pre[k], post[k], payload)
        }
}

/// A fan-out with an excluded sender touches no session's identity, so it
/// keeps the registry invariant.
pub proof fn lemma_broadcast_except_preserves_names(
    pre: Seq<Session>,
    post: Seq<Session>,
    payload: Seq<char>,
    exclude: Seq<char>,
)
    requires
        broadcast_except_rel(pre, post, payload, exclude),
    ensures
        forall|k: int| 0 <= k < post.len() ==> (#[trigger] post[k]).name@ == pre[k].name@,
        unique_names(pre) ==> unique_names(post),
{
    assert forall|k: int| 0 <= k < post.len() implies (#[trigger] post[k]).name@
        == pre[k].name@ by {
        if pre[k].name@ == exclude {
        } else {
            assert(enqueued(pre[k], post[k], payload));
        }
    }
    if unique_names(pre) {
        assert forall|k1: int, k2: int| 0 <= k1 < k2 < post.len() implies (
        #[trigger] post[k1]).name@ != (#[trigger] post[k2]).name@ by {
            assert(post[k1].name@ == pre[k1].name@);
            assert(post[k2].name@ == pre[k2].name@);
        }
    }
}

/// The relay's whole state: the registry of live sessions.
pub struct Relay {
    pub sessions: Vec<Session>,
}

impl Relay {
    /// The registry invariant: identities are registry keys, so unique.
    pub open spec fn wf(&self) -> bool {
        unique_names(self.sessions@)
    }

    /// A relay with no sessions.
    pub fn new() -> (r: Relay)
        ensures
            r.wf(),
            r.sessions@.len() == 0,
    {
        Relay { sessions: Vec::new() }
    }

    /// The registry position of `name`, if present.
    fn find(&self, name: &String) -> (r: Option<usize>)
        ensures
            match r {
                Some(k) => k < self.sessions@.len() && self.sessions@[k as int].name@ == name@,
                None => !has_name(self.sessions@, name@),
            },
    {
        let n = self.sessions.len();
        let mut k: usize = 0;
        while k < n
            invariant
                n == self.sessions@.len(),
                k <= n,
                forall|i: int| 0 <= i < k ==> (#[trigger] self.sessions@[i]).name@ != name@,
            decreases n - k,
        {
            if self.sessions[k].name == *name {
                return Some(k);
            }
            k = k + 1;
        }
        None
    }

    /// Enqueues one frame for every session.
    fn broadcast_all(&mut self, payload: &String)
        ensures
            final(self).sessions@.len() == old(self).sessions@.len(),
            forall|k: int|
                0 <= k < old(self).sessions@.len() ==> enqueued(
                    old(self).sessions@[k],
                    #[trigger] final(self).sessions@[k],
                    payload@,
                ),
    {
        let n = self.sessions.len();
        let mut k: usize = 0;
        while k < n
            invariant
                n == self.sessions@.len(),
                k <= n,
                forall|i: int|
                    0 <= i < k ==> enqueued(
                        old(self).sessions@[i],
                        #[trigger] self.sessions@[i],
                        payload@,
                    ),
                forall|i: int| k <= i < n ==> #[trigger] self.sessions@[i] == old(self).sessions@[i],
            decreases n - k,
        {
            let ghost snap = self.sessions@;
            let mut s = self.sessions.remove(k);
            s.outbox.push(payload.clone());
            self.sessions.insert(k, s);
            proof {
                assert(self.sessions@ =~= snap.update(k as int, self.sessions@[k as int]));
            }
            k = k + 1;
        }
    }

    /// Enqueues one frame for every session except the one (if any) whose
    /// identity equals `exclude`.
    fn broadcast_except(&mut self, payload: &String, exclude: &String)
        ensures
            broadcast_except_rel(old(self).sessions@, final(self).sessions@, payload@, exclude@),
    {
        let n = self.sessions.len();
        let mut k: usize = 0;
        while k < n
            invariant
                n == self.sessions@.len(),
                k <= n,
                forall|i: int|
                    0 <= i < k ==> if (#[trigger] old(self).sessions@[i]).name@ == exclude@ {
                        self.sessions@[i] == old(self).sessions@[i]
                    } else {
                        enqueued(old(self).sessions@[i], self.sessions@[i], payload@)
                    },
                forall|i: int| k <= i < n ==> #[trigger] self.sessions@[i] == old(self).sessions@[i],
            decreases n - k,
        {
            if !(self.sessions[k].name == *exclude) {
                let mut s = self.sessions.remove(k);
                s.outbox.push(payload.clone());
                self.sessions.insert(k, s);
            }
            k = k + 1;
        }
    }

    /// The identities currently registered, in registry order. Registry
    /// order is an implementation detail: callers may rely on it only for
    /// display.
    pub fn snapshot_identities(&self) -> (r: Vec<String>)
        ensures
            r@.len() == self.sessions@.len(),
            forall|k: int| 0 <= k < r@.len() ==> #[trigger] r@[k] == self.sessions@[k].name,
            views_of(r@) == session_names(self.sessions@),
    {
        let n = self.sessions.len();
        let mut r: Vec<String> = Vec::new();
        let mut k: usize = 0;
        while k < n
            invariant
                n == self.sessions@.len(),
                k <= n,
                r@.len() == k,
                forall|i: int| 0 <= i < k ==> #[trigger] r@[i] == self.sessions@[i].name,
            decreases n - k,
        {
            r.push(self.sessions[k].name.clone());
            k = k + 1;
        }
        proof {
            assert(views_of(r@) =~= session_names(self.sessions@));
        }
        r
    }

    /// Inserts (or replaces) the registry entry for `name` bound to
    /// connection `conn`, then broadcasts the updated client list to all
    /// current sessions, the new one included. Always succeeds: a second
    /// join under a taken identity silently replaces the first entry.
    pub fn join(&mut self, name: String, conn: u64)
        requires
            old(self).wf(),
        ensures
            final(self).wf(),
            join_rel(old(self).sessions@, final(self).sessions@, name@, conn),
    {
        let ghost pre = self.sessions@;
        let found = self.find(&name);
        let ghost nview = name@;
        let ghost kk: int = match found {
            Some(k) => k as int,
            None => pre.len() as int,
        };
        match found {
            Some(k) => {
                self.sessions.remove(k);
                self.sessions.insert(k, Session { name, conn, outbox: Vec::new() });
                proof {
                    assert(self.sessions@ =~= pre.update(k as int, self.sessions@[k as int]));
                    assert(session_names(self.sessions@) =~= session_names(pre));
                }
            },
            None => {
                self.sessions.push(Session { name, conn, outbox: Vec::new() });
                proof {
                    assert(session_names(self.sessions@) =~= session_names(pre).push(nview));
                }
            },
        }
        let ghost mid = self.sessions@;
        proof {
            assert(mid[kk].name@ == nview);
            assert(mid[kk].conn == conn);
            assert(mid[kk].outbox@.len() == 0);
            assert(forall|k: int| 0 <= k < pre.len() && k != kk ==> #[trigger] mid[k] == pre[k]);
            assert forall|k1: int, k2: int| 0 <= k1 < k2 < mid.len() implies (
            #[trigger] mid[k1]).name@ != (#[trigger] mid[k2]).name@ by {
                assert(session_names(mid)[k1] == mid[k1].name@);
                assert(session_names(mid)[k2] == mid[k2].name@);
                if kk < pre.len() {
                    assert(session_names(mid) == session_names(pre));
                    assert(session_names(pre)[k1] == pre[k1].name@);
                    assert(session_names(pre)[k2] == pre[k2].name@);
                } else {
                    if k2 < kk {
                        assert(mid[k1] == pre[k1] && mid[k2] == pre[k2]);
                    } else {
                        assert(mid[k1] == pre[k1] && mid[k2].name@ == nview);
                        assert(!has_name(pre, nview));
                    }
                }
            }
        }
        let ids = self.snapshot_identities();
        let payload = encode_client_list_event(&ids);
        self.broadcast_all(&payload);
        proof {
            let post = self.sessions@;
            assert(session_names(post) =~= session_names(mid));
            assert(payload@ == client_list_payload(post));
            assert(post[kk].name@ == nview);
            assert(has_name(post, nview));
            assert forall|k1: int, k2: int| 0 <= k1 < k2 < post.len() implies (
            #[trigger] post[k1]).name@ != (#[trigger] post[k2]).name@ by {
                assert(post[k1].name@ == mid[k1].name@);
                assert(post[k2].name@ == mid[k2].name@);
            }
            assert forall|k: int|
                0 <= k < pre.len() && (#[trigger] pre[k]).name@ != nview implies k < post.len()
                    && enqueued(pre[k], post[k], client_list_payload(post)) by {
                assert(k != kk);
                assert(mid[k] == pre[k]);
                assert(enqueued(mid[k], post[k], payload@));
            }
            assert forall|k: int|
                0 <= k < post.len() && (#[trigger] post[k]).name@ == nview implies post[k].conn
                    == conn && post[k].outbox@.len() == 1 && post[k].outbox@[0]@
                    == client_list_payload(post) by {
                if k != kk {
                    assert(mid[k].name@ == post[k].name@);
                    assert(mid[k].name@ != mid[kk].name@);
                    assert(false);
                }
                assert(enqueued(mid[kk], post[kk], payload@));
                assert(post[kk].outbox@ == mid[kk].outbox@.push(post[kk].outbox@.last()));
            }
        }
    }

    /// Removes the registry entry for `name` if present (a double disconnect
    /// is a no-op on the registry), then broadcasts the updated client list
    /// to all remaining sessions.
    pub fn leave(&mut self, name: &String)
        requires
            old(self).wf(),
        ensures
            final(self).wf(),
            leave_rel(old(self).sessions@, final(self).sessions@, name@),
            !has_name(final(self).sessions@, name@),
    {
        let ghost pre = self.sessions@;
        let found = self.find(name);
        let ghost k0: int = match found {
            Some(k) => k as int,
            None => 0,
        };
        match found {
            Some(k) => {
                self.sessions.remove(k);
            },
            None => {},
        }
        let ghost mid = self.sessions@;
        let ids = self.snapshot_identities();
        let payload = encode_client_list_event(&ids);
        self.broadcast_all(&payload);
        proof {
            assert(session_names(self.sessions@) =~= session_names(mid));
            assert(payload@ == client_list_payload(self.sessions@));
            assert forall|k1: int, k2: int| 0 <= k1 < k2 < self.sessions@.len() implies (
            #[trigger] self.sessions@[k1]).name@ != (#[trigger] self.sessions@[k2]).name@ by {
                assert(self.sessions@[k1].name@ == mid[k1].name@);
                assert(self.sessions@[k2].name@ == mid[k2].name@);
            }
            if has_name(pre, name@) {
                assert(pre[k0].name@ == name@);
                assert forall|k: int| 0 <= k < self.sessions@.len() implies (
                #[trigger] self.sessions@[k]).name@ != name@ by {
                    if k < k0 {
                        assert(mid[k] == pre[k]);
                    } else {
                        assert(mid[k] == pre[k + 1]);
                    }
                }
                assert(leave_rel(pre, self.sessions@, name@));
            } else {
                assert forall|k: int| 0 <= k < self.sessions@.len() implies (
                #[trigger] self.sessions@[k]).name@ != name@ by {
                    assert(mid[k] == pre[k]);
                }
                assert(leave_rel(pre, self.sessions@, name@));
            }
        }
    }

    /// Routes one decoded inbound frame, as the relay does per connection:
    /// a join request registers the sender and makes its identity the
    /// connection's current one; a grid snapshot is forwarded to every
    /// session except the one named as its sender, trusted as-is; anything
    /// else (a client list, an unknown tag, a malformed frame) is ignored.
    /// Returns the connection's current identity after the frame.
    pub fn dispatch(&mut self, conn: u64, current: Option<String>, frame: Decoded) -> (new_id: Option<
        String,
    >)
        requires
            old(self).wf(),
            frame matches Decoded::Grid(g) ==> wf_grid(g.data@),
        ensures
            final(self).wf(),
            match frame {
                Decoded::Init(ev) => join_rel(
                    old(self).sessions@,
                    final(self).sessions@,
                    ev.name@,
                    conn,
                ) && new_id == Some(ev.name),
                Decoded::Grid(g) => broadcast_except_rel(
                    old(self).sessions@,
                    final(self).sessions@,
                    grid_event_json(g.data@, g.sender@),
                    g.sender@,
                ) && new_id == current,
                _ => *final(self) == *old(self) && new_id == current,
            },
    {
        match frame {
            Decoded::Init(ev) => {
                let id = ev.name.clone();
                self.join(ev.name, conn);
                Some(id)
            },
            Decoded::Grid(g) => {
                let ghost pre = self.sessions@;
                let payload = encode_grid_event(&g.data, g.sender.as_str());
                self.broadcast_except(&payload, &g.sender);
                proof {
                    lemma_broadcast_except_preserves_names(
                        pre,
                        self.sessions@,
                        payload@,
                        g.sender@,
                    );
                }
                current
            },
            _ => current,
        }
    }

    /// Handles a transport close or error on a connection: if the
    /// connection had joined under an identity, that identity leaves the
    /// registry; an anonymous connection leaves no trace.
    pub fn handle_disconnect(&mut self, current: Option<String>)
        requires
            old(self).wf(),
        ensures
            final(self).wf(),
            match current {
                Some(n) => leave_rel(old(self).sessions@, final(self).sessions@, n@),
                None => *final(self) == *old(self),
            },
    {
        match current {
            Some(n) => self.leave(&n),
            None => {},
        }
    }

    /// Hands the embedding everything queued for the session at registry
    /// position `k`, oldest first, leaving that outbox empty. Observing the
    /// returned vector front to back observes frames in enqueue order.
    pub fn take_outbox_at(&mut self, k: usize) -> (r: Vec<String>)
        requires
            k < old(self).sessions@.len(),
        ensures
            final(self).sessions@.len() == old(self).sessions@.len(),
            r@ == old(self).sessions@[k as int].outbox@,
            final(self).sessions@[k as int].name == old(self).sessions@[k as int].name,
            final(self).sessions@[k as int].conn == old(self).sessions@[k as int].conn,
            final(self).sessions@[k as int].outbox@.len() == 0,
            forall|i: int|
                0 <= i < old(self).sessions@.len() && i != k ==> #[trigger] final(self).sessions@[i]
                    == old(self).sessions@[i],
    {
        let ghost pre = self.sessions@;
        let s = self.sessions.remove(k);
        let taken = s.outbox;
        self.sessions.insert(k, Session { name: s.name, conn: s.conn, outbox: Vec::new() });
        proof {
            assert(self.sessions@ =~= pre.update(k as int, self.sessions@[k as int]));
        }
        taken
    }
}

/// Registry convergence: once an identity has left, every remaining session
/// has, as the newest frame in its queue, a client list built from the
/// post-leave registry, and that registry nowhere contains the departed
/// identity.
pub proof fn lemma_registry_convergence(pre: Seq<Session>, post: Seq<Session>, name: Seq<char>)
    requires
        unique_names(pre),
        leave_rel(pre, post, name),
        has_name(pre, name),
    ensures
        !has_name(post, name),
        forall|k: int| 0 <= k < session_names(post).len() ==> session_names(post)[k] != name,
        forall|k: int|
            0 <= k < post.len() ==> (#[trigger] post[k]).outbox@.len() >= 1
                && post[k].outbox@.last()@ == client_list_payload(post),
{
    let p = client_list_payload(post);
    let k0 = choose|k0: int|
        0 <= k0 < pre.len() && (#[trigger] pre[k0]).name@ == name && post.len() + 1 == pre.len()
            && (forall|k: int| 0 <= k < k0 ==> enqueued(pre[k], #[trigger] post[k], p)) && (forall|
            k: int,
        |
            k0 <= k < post.len() ==> enqueued(pre[k + 1], #[trigger] post[k], p));
    assert forall|k: int| 0 <= k < post.len() implies (#[trigger] post[k]).name@ != name by {
        if k < k0 {
            assert(enqueued(pre[k], post[k], p));
        } else {
            assert(enqueued(pre[k + 1], post[k], p));
        }
    }
    assert forall|k: int| 0 <= k < post.len() implies (#[trigger] post[k]).outbox@.len() >= 1
        && post[k].outbox@.last()@ == client_list_payload(post) by {
        if k < k0 {
            assert(enqueued(pre[k], post[k], p));
        } else {
            assert(enqueued(pre[k + 1], post[k], p));
        }
    }
    assert forall|k: int| 0 <= k < session_names(post).len() implies session_names(post)[k]
        != name by {
        assert(session_names(post)[k] == post[k].name@);
    }
}

/// No self-echo: a grid update fanned out with its sender excluded leaves
/// the sender's own session, and so its outbound queue, exactly as it was.
pub proof fn lemma_no_self_echo(
    pre: Seq<Session>,
    post: Seq<Session>,
    payload: Seq<char>,
    sender: Seq<char>,
    k: int,
)
    requires
        broadcast_except_rel(pre, post, payload, sender),
        0 <= k < pre.len(),
        pre[k].name@ == sender,
    ensures
        post[k] == pre[k],
        post[k].outbox@ == pre[k].outbox@,
{
}

/// FIFO per recipient: when the relay enqueues one frame and then another
/// for the same session, the two sit in that session's queue in enqueue
/// order, behind the queue's earlier contents, which are untouched.
pub proof fn lemma_fifo_per_recipient(
    s0: Session,
    s1: Session,
    s2: Session,
    p1: Seq<char>,
    p2: Seq<char>,
)
    requires
        enqueued(s0, s1, p1),
        enqueued(s1, s2, p2),
    ensures
        s2.outbox@.len() == s0.outbox@.len() + 2,
        s2.outbox@[s0.outbox@.len() as int]@ == p1,
        s2.outbox@[s0.outbox@.len() as int + 1]@ == p2,
        forall|k: int| 0 <= k < s0.outbox@.len() ==> #[trigger] s2.outbox@[k] == s0.outbox@[k],
{
    assert(s1.outbox@[s0.outbox@.len() as int] == s1.outbox@.last());
}

} // verus!
