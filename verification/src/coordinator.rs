//! The coordinator's bookkeeping: session identities, the registry of
//! live sessions, and the transition out of the accepting state.
//!
//! The surrounding process owns the listening socket and the running
//! tasks; every decision it takes — which identity a new connection
//! gets, whether an identity is still registered, when to stop
//! accepting — is made here.

use vstd::prelude::*;

verus! {

/// A control-plane event, produced by sessions and consumed by the
/// coordinator.
#[derive(Clone, Copy, Debug, PartialEq, Eq, Structural)]
pub enum ControlMsg {
    /// Stop the whole service.
    Shutdown,
    /// The session with this identity has finished and asks to be
    /// deregistered.
    SessionDone(u16),
}

/// What the surrounding process must do after the coordinator has
/// consumed one control message.
#[derive(Clone, Copy, Debug, PartialEq, Eq, Structural)]
pub enum Reaction {
    /// Stop accepting connections and return success.
    Stop,
    /// Wait for the finished session's task, so that a deferred failure
    /// surfaces before its identity is forgotten.
    AwaitSession(u16),
    /// The identity was never registered, or already retired: an
    /// internal-bug condition to report, not a reason to stop.
    UnknownSession(u16),
}

/// The coordinator's state: the next identity to hand out, the
/// identities of sessions spawned and not yet retired, and whether new
/// connections are still being accepted.
pub struct Coordinator {
    next_id: u16,
    live: Vec<u16>,
    accepting: bool,
}

impl Coordinator {
    /// The identities of live sessions, in order of registration.
    pub closed spec fn ids(&self) -> Seq<u16> {
        self.live@
    }

    /// The identity the next accepted connection will get.
    pub closed spec fn next(&self) -> u16 {
        self.next_id
    }

    /// Whether the service still accepts new connections.
    pub closed spec fn accepting(&self) -> bool {
        self.accepting
    }

    /// The registry invariant: no two live sessions share an identity,
    /// and every live identity was handed out earlier than the next one.
    pub open spec fn wf(&self) -> bool {
        &&& forall|i: int, j: int|
            0 <= i < j < self.ids().len() ==> self.ids()[i] != self.ids()[j]
        &&& forall|i: int| 0 <= i < self.ids().len() ==> #[trigger] self.ids()[i] < self.next()
    }

    /// A fresh coordinator: no sessions yet, identities start at zero,
    /// accepting connections.
    pub fn new() -> (c: Coordinator)
        ensures
            c.wf(),
            c.ids() == Seq::<u16>::empty(),
            c.next() == 0,
            c.accepting(),
    {
        Coordinator { next_id: 0, live: Vec::new(), accepting: true }
    }

    /// Registers a newly accepted connection: hands out the next
    /// identity — fresh, no live session holds it — and records it.
    pub fn accept(&mut self) -> (id: u16)
        requires
            old(self).wf(),
            old(self).accepting(),
            old(self).next() < u16::MAX,
        ensures
            final(self).wf(),
            id == old(self).next(),
            !old(self).ids().contains(id),
            final(self).ids() == old(self).ids().push(id),
            final(self).next() == id + 1,
            final(self).accepting(),
    {
        let id = self.next_id;
        proof {
            if old(self).ids().contains(id) {
                let i = choose|i: int| 0 <= i < old(self).ids().len() && old(self).ids()[i] == id;
                assert(old(self).ids()[i] < old(self).next());
            }
        }
        self.live.push(id);
        self.next_id = self.next_id + 1;
        id
    }

    /// Whether the session with this identity is still registered.
    pub fn is_live(&self, id: u16) -> (b: bool)
        ensures
            b == self.ids().contains(id),
    {
        let mut i: usize = 0;
        while i < self.live.len()
            invariant
                0 <= i <= self.live.len(),
                forall|j: int| 0 <= j < i ==> self.ids()[j] != id,
            decreases self.live.len() - i,
        {
            if self.live[i] == id {
                return true;
            }
            i = i + 1;
        }
        false
    }

    /// The identity the next accepted connection will get; also how
    /// close the identity space is to exhaustion.
    pub fn next_session_id(&self) -> (n: u16)
        ensures
            n == self.next(),
    {
        self.next_id
    }

    /// Whether the service still accepts new connections.
    pub fn is_accepting(&self) -> (b: bool)
        ensures
            b == self.accepting(),
    {
        self.accepting
    }

    /// Number of live sessions.
    pub fn live_count(&self) -> (n: usize)
        ensures
            n == self.ids().len(),
    {
        self.live.len()
    }

    /// Deregisters a finished session. Exactly the entry for `id` goes;
    /// every other live session stays untouched, and a second report of
    /// the same identity finds nothing to remove.
    pub fn session_done(&mut self, id: u16) -> (was_live: bool)
        requires
            old(self).wf(),
        ensures
            final(self).wf(),
            was_live == old(self).ids().contains(id),
            !final(self).ids().contains(id),
            forall|x: u16|
                x != id ==> (final(self).ids().contains(x) <==> old(self).ids().contains(x)),
            was_live ==> final(self).ids() == old(self).ids().remove_value(id),
            !was_live ==> final(self).ids() == old(self).ids(),
            final(self).next() == old(self).next(),
            final(self).accepting() == old(self).accepting(),
    {
        let ghost old_ids = old(self).ids();
        proof {
            assert(forall|p: int, q: int|
                0 <= p < q < old_ids.len() ==> old_ids[p] != old_ids[q]);
            assert(forall|p: int|
                0 <= p < old_ids.len() ==> #[trigger] old_ids[p] < old(self).next());
        }
        let mut i: usize = 0;
        while i < self.live.len()
            invariant
                0 <= i <= self.live.len(),
                old_ids == old(self).ids(),
                self.live@ == old_ids,
                self.next_id == old(self).next(),
                self.accepting == old(self).accepting(),
                forall|j: int| 0 <= j < i ==> old_ids[j] != id,
                forall|p: int, q: int| 0 <= p < q < old_ids.len() ==> old_ids[p] != old_ids[q],
                forall|p: int| 0 <= p < old_ids.len() ==> #[trigger] old_ids[p] < old(self).next(),
            decreases self.live.len() - i,
        {
            if self.live[i] == id {
                proof {
                    assert(old_ids[i as int] == id);
                }
                self.live.remove(i);
                proof {
                    lemma_remove_unique(old_ids, id, i as int);
                    let r = old_ids.remove(i as int);
                    assert(self.live@ == r);
                    assert(old_ids.contains(id));
                    assert forall|x: u16|
                        x != id implies (self.ids().contains(x) <==> old_ids.contains(
                        x,
                    )) by {
                        assert(r.contains(x) <==> old_ids.contains(x));
                    };
                    assert forall|p: int| 0 <= p < r.len() implies #[trigger] r[p]
                        < old(self).next() by {
                        if p < i {
                            assert(r[p] == old_ids[p]);
                        } else {
                            assert(r[p] == old_ids[p + 1]);
                        }
                    };
                }
                return true;
            }
            i = i + 1;
        }
        proof {
            if old_ids.contains(id) {
                let k = choose|k: int| 0 <= k < old_ids.len() && old_ids[k] == id;
                assert(old_ids[k] != id);
            }
        }
        false
    }

    /// Consumes one control message. `Shutdown` is the sole transition
    /// out of the accepting state and leaves the registry as it is;
    /// `SessionDone` deregisters exactly the reported identity and asks
    /// the caller to wait for that task, or reports an unknown identity
    /// while changing nothing.
    pub fn handle_control(&mut self, msg: ControlMsg) -> (r: Reaction)
        requires
            old(self).wf(),
        ensures
            final(self).wf(),
            final(self).next() == old(self).next(),
            msg is Shutdown ==> {
                &&& r is Stop
                &&& !final(self).accepting()
                &&& final(self).ids() == old(self).ids()
            },
            msg matches ControlMsg::SessionDone(id) ==> {
                &&& final(self).accepting() == old(self).accepting()
                &&& !final(self).ids().contains(id)
                &&& (forall|x: u16|
                    x != id ==> (final(self).ids().contains(x) <==> old(self).ids().contains(x)))
                &&& (old(self).ids().contains(id) ==> r == Reaction::AwaitSession(id)
                    && final(self).ids() == old(self).ids().remove_value(id))
                &&& (!old(self).ids().contains(id) ==> r == Reaction::UnknownSession(id)
                    && final(self).ids() == old(self).ids())
            },
    {
        match msg {
            ControlMsg::Shutdown => {
                self.accepting = false;
                Reaction::Stop
            },
            ControlMsg::SessionDone(id) => {
                if self.session_done(id) {
                    Reaction::AwaitSession(id)
                } else {
                    Reaction::UnknownSession(id)
                }
            },
        }
    }
}

/// A session's retirement is isolated: in a registry without duplicate
/// identities, deregistering `quitter` leaves every other registered
/// session registered — its later commands are served as before — and
/// leaves no trace of `quitter` itself.
pub proof fn lemma_done_isolates(ids: Seq<u16>, quitter: u16, other: u16)
    requires
        forall|p: int, q: int| 0 <= p < q < ids.len() ==> ids[p] != ids[q],
        ids.contains(other),
        other != quitter,
    ensures
        ids.remove_value(quitter).contains(other),
        !ids.remove_value(quitter).contains(quitter),
{
    ids.index_of_first_ensures(quitter);
    if ids.contains(quitter) {
        let i = ids.index_of_first(quitter).unwrap();
        lemma_remove_unique(ids, quitter, i);
    }
}

/// Removing the only occurrence of `id` from a duplicate-free sequence
/// leaves a duplicate-free sequence without `id`, with everything else
/// still present.
proof fn lemma_remove_unique(s: Seq<u16>, id: u16, i: int)
    requires
        0 <= i < s.len(),
        s[i] == id,
        forall|p: int, q: int| 0 <= p < q < s.len() ==> s[p] != s[q],
    ensures
        s.remove(i) == s.remove_value(id),
        !s.remove(i).contains(id),
        forall|x: u16| x != id ==> (s.remove(i).contains(x) <==> s.contains(x)),
        forall|p: int, q: int| 0 <= p < q < s.remove(i).len() ==> s.remove(i)[p] != s.remove(i)[q],
        forall|p: int| 0 <= p < i ==> #[trigger] s.remove(i)[p] == s[p],
        forall|p: int| i <= p < s.len() - 1 ==> #[trigger] s.remove(i)[p] == s[p + 1],
{
    s.index_of_first_ensures(id);
    assert(s.index_of_first(id) == Some(i));
    s.remove_ensures(i);
    let r = s.remove(i);
    assert forall|x: u16| x != id && s.contains(x) implies r.contains(x) by {
        let q = choose|q: int| 0 <= q < s.len() && s[q] == x;
        if q < i {
            assert(r[q] == x);
        } else {
            assert(r[q - 1] == x);
        }
    };
    assert forall|p: int| 0 <= p < r.len() implies r[p] != id by {
        if p < i {
            assert(r[p] == s[p]);
        } else {
            assert(r[p] == s[p + 1]);
        }
    };
    if r.contains(id) {
        let p = choose|p: int| 0 <= p < r.len() && r[p] == id;
        assert(r[p] != id);
    }
}

} // verus!
