//! The command/response correlation engine.
//!
//! A server-side caller issues a command to one session and awaits that
//! session's reply: a fresh correlation id is drawn, a pending entry is
//! created, the encoded command goes out through the target's output
//! channel, and the caller polls the pending entry until the reply arrives
//! or its deadline passes. A reaper drains the waker set at a short fixed
//! interval so every suspended caller re-checks its own entry.
//!
//! The reply type `T` is the embedder's decoded payload; the engine never
//! looks inside it. Encoding, the actual send and the timer live with the
//! embedding application; everything the engine decides is here.

use vstd::prelude::*;

use crate::room::Room;

verus! {

/// Why a command could not be completed.
#[derive(Clone, Debug, PartialEq, Eq, Structural)]
pub enum CommandError {
    /// The addressed session id is not registered.
    TargetNotFound,
    /// Writing to the target's output channel failed; the target is treated
    /// as gone.
    SendFailed,
    /// No reply arrived within the caller's deadline.
    Timeout,
}

/// The outcome of one poll of a pending command.
pub enum WaitOutcome<T> {
    /// The reply arrived and is consumed by this poll.
    Ready(T),
    /// The deadline has passed without a reply.
    TimedOut,
    /// No reply yet and the deadline has not passed; the caller suspends.
    NotReady,
}

/// The correlation engine: the pending-command table, keyed by correlation
/// id. An entry holds `None` from send until the reply arrives, then
/// `Some(reply)` until exactly one poll consumes it.
pub struct ServerCommand<T> {
    /// Pending commands: correlation id and the reply, once it arrived.
    pub queue: Vec<(String, Option<T>)>,
}

/// The suspension registry: the resumption tokens of all currently
/// suspended callers, drained as a whole by the periodic reaper pass.
/// The token type `W` is the embedder's; it is stored and handed back.
pub struct WakerManager<W> {
    /// The registered resumption tokens, oldest first.
    pub wakers: Vec<W>,
}

/// Draws a fresh correlation id.
///
/// Relies on `uuid::Uuid::new_v4` and its hyphenated rendering: a random
/// version-4 UUID, written as 36 characters. Freshness is probabilistic and
/// not assumed here; the table treats a colliding id like any re-used key.
#[verifier::external_body]
fn fresh_event_id() -> (r: String)
    ensures
        r@.len() == 36,
{
    uuid::Uuid::new_v4().to_string()
}

impl<T> ServerCommand<T> {
    /// There is a pending entry under this correlation id.
    pub open spec fn has_pending(self, id: Seq<char>) -> bool {
        exists|i: int| 0 <= i < self.queue@.len() && (#[trigger] self.queue@[i]).0@ == id
    }

    /// The position of the entry with this id (unique under [`ServerCommand::wf`]).
    pub open spec fn pending_index(self, id: Seq<char>) -> int {
        choose|i: int| 0 <= i < self.queue@.len() && (#[trigger] self.queue@[i]).0@ == id
    }

    /// The reply slot stored under this id: `None` while the command is
    /// outstanding, `Some(reply)` once the reply arrived.
    pub open spec fn reply_of(self, id: Seq<char>) -> Option<T> {
        self.queue@[self.pending_index(id)].1
    }

    /// Well-formedness: no two entries share a correlation id.
    pub open spec fn wf(self) -> bool {
        forall|i: int, j: int|
            0 <= i < j < self.queue@.len() ==> (#[trigger] self.queue@[i]).0@ != (
            #[trigger] self.queue@[j]).0@
    }

    /// Under `wf`, any position holding a given id is the one
    /// `pending_index` picks.
    pub proof fn lemma_pending_index_unique(self, id: Seq<char>, i: int)
        requires
            self.wf(),
            0 <= i < self.queue@.len(),
            self.queue@[i].0@ == id,
        ensures
            self.pending_index(id) == i,
            self.has_pending(id),
    {
        assert(self.has_pending(id));
        let j = self.pending_index(id);
        if i < j {
            assert(self.queue@[i].0@ != self.queue@[j].0@);
        } else if j < i {
            assert(self.queue@[j].0@ != self.queue@[i].0@);
        }
    }

    /// An engine with no pending commands.
    pub fn new() -> (r: ServerCommand<T>)
        ensures
            r.wf(),
            r.queue@.len() == 0,
            forall|id: Seq<char>| !r.has_pending(id),
    {
        ServerCommand { queue: Vec::new() }
    }

    /// The position of the entry with this id, if there is one.
    fn find(&self, event_id: &String) -> (r: Option<usize>)
        ensures
            match r {
                Some(i) => i < self.queue@.len() && self.queue@[i as int].0@ == event_id@,
                None => !self.has_pending(event_id@),
            },
    {
        let n = self.queue.len();
        for i in 0..n
            invariant
                n == self.queue@.len(),
                forall|j: int| 0 <= j < i ==> (#[trigger] self.queue@[j]).0@ != event_id@,
        {
            if self.queue[i].0.eq(event_id) {
                return Some(i);
            }
        }
        None
    }

    /// What inserting a pending entry does: the id now maps to an empty
    /// reply slot, and every other entry is untouched.
    pub open spec fn insert_step(pre: Self, post: Self, id: Seq<char>) -> bool {
        &&& forall|x: Seq<char>| post.has_pending(x) <==> pre.has_pending(x) || x == id
        &&& post.reply_of(id) is None
        &&& forall|x: Seq<char>|
            x != id && pre.has_pending(x) ==> post.reply_of(x) == pre.reply_of(x)
    }

    /// Creates the pending entry for a just-sent command: the slot starts
    /// empty. Re-using an id clears its slot.
    pub fn insert_pending(&mut self, event_id: &String)
        requires
            old(self).wf(),
        ensures
            final(self).wf(),
            Self::insert_step(*old(self), *final(self), event_id@),
    {
        let ghost pre = *self;
        match self.find(event_id) {
            Some(i) => {
                proof {
                    pre.lemma_pending_index_unique(event_id@, i as int);
                }
                self.queue[i].1 = None;
                proof {
                    Self::lemma_slot_update(pre, *self, event_id@, i as int, None);
                    assert(Self::insert_step(pre, *self, event_id@));
                }
            },
            None => {
                self.queue.push((event_id.clone(), None));
                proof {
                    Self::lemma_entry_pushed(pre, *self, event_id@, None);
                    assert(Self::insert_step(pre, *self, event_id@));
                }
            },
        }
    }

    /// What a reply's arrival does: an outstanding entry's slot is filled,
    /// and a reply whose entry is gone — removed by timeout before the
    /// reply arrived — is dropped without a trace. The late-reply policy is
    /// deliberate: such a reply is accepted data loss, not an error.
    pub open spec fn resolve_step(pre: Self, post: Self, id: Seq<char>, v: T, r: bool) -> bool {
        &&& r == pre.has_pending(id)
        &&& !pre.has_pending(id) ==> post == pre
        &&& pre.has_pending(id) ==> {
            &&& forall|x: Seq<char>| post.has_pending(x) <==> pre.has_pending(x)
            &&& post.reply_of(id) == Some(v)
            &&& forall|x: Seq<char>|
                x != id && pre.has_pending(x) ==> post.reply_of(x) == pre.reply_of(x)
        }
    }

    /// Files an inbound reply under its correlation id. Returns whether the
    /// command was still outstanding; a late reply is dropped.
    pub fn resolve(&mut self, event_id: &String, value: T) -> (r: bool)
        requires
            old(self).wf(),
        ensures
            final(self).wf(),
            Self::resolve_step(*old(self), *final(self), event_id@, value, r),
    {
        let ghost pre = *self;
        match self.find(event_id) {
            Some(i) => {
                proof {
                    pre.lemma_pending_index_unique(event_id@, i as int);
                }
                self.queue[i].1 = Some(value);
                proof {
                    Self::lemma_slot_update(pre, *self, event_id@, i as int, Some(value));
                }
                true
            },
            None => false,
        }
    }

    /// What removing an entry does: the id is gone and every other entry is
    /// untouched.
    pub open spec fn remove_step(pre: Self, post: Self, id: Seq<char>) -> bool {
        &&& forall|x: Seq<char>| post.has_pending(x) <==> pre.has_pending(x) && x != id
        &&& forall|x: Seq<char>|
            x != id && pre.has_pending(x) ==> post.reply_of(x) == pre.reply_of(x)
    }

    /// Drops the pending entry for a command whose send failed or whose
    /// caller gave up, so no abandoned entry leaks.
    pub fn cancel_pending(&mut self, event_id: &String)
        requires
            old(self).wf(),
        ensures
            final(self).wf(),
            Self::remove_step(*old(self), *final(self), event_id@),
    {
        let ghost pre = *self;
        match self.find(event_id) {
            Some(i) => {
                proof {
                    pre.lemma_pending_index_unique(event_id@, i as int);
                }
                let _ = self.queue.remove(i);
                proof {
                    Self::lemma_entry_removed(pre, *self, event_id@, i as int);
                }
            },
            None => {},
        }
    }

    /// What one consuming poll does: a filled slot is handed out and its
    /// entry removed in the same step, so a second poll of the same id can
    /// never see the value again; an empty or missing slot hands out
    /// nothing and changes nothing.
    pub open spec fn take_step(pre: Self, post: Self, id: Seq<char>, r: Option<T>) -> bool {
        &&& pre.has_pending(id) && pre.reply_of(id) is Some ==> {
            &&& r == pre.reply_of(id)
            &&& forall|x: Seq<char>| post.has_pending(x) <==> pre.has_pending(x) && x != id
            &&& forall|x: Seq<char>|
                x != id && pre.has_pending(x) ==> post.reply_of(x) == pre.reply_of(x)
        }
        &&& !(pre.has_pending(id) && pre.reply_of(id) is Some) ==> {
            &&& r is None
            &&& post == pre
        }
    }

    /// Consumes the reply of this command if it has arrived: the entry is
    /// removed atomically with the read, so the reply is delivered at most
    /// once.
    pub fn take_ready(&mut self, event_id: &String) -> (r: Option<T>)
        requires
            old(self).wf(),
        ensures
            final(self).wf(),
            Self::take_step(*old(self), *final(self), event_id@, r),
    {
        let ghost pre = *self;
        match self.find(event_id) {
            Some(i) => {
                proof {
                    pre.lemma_pending_index_unique(event_id@, i as int);
                }
                if self.queue[i].1.is_some() {
                    let entry = self.queue.remove(i);
                    proof {
                        Self::lemma_entry_removed(pre, *self, event_id@, i as int);
                    }
                    entry.1
                } else {
                    None
                }
            },
            None => None,
        }
    }

    /// Exactly-once delivery: once a poll has consumed a reply, any further
    /// poll of the same correlation id comes back empty.
    pub proof fn lemma_reply_delivered_once(
        q0: Self,
        q1: Self,
        q2: Self,
        id: Seq<char>,
        r1: Option<T>,
        r2: Option<T>,
    )
        requires
            q0.has_pending(id),
            q0.reply_of(id) is Some,
            Self::take_step(q0, q1, id, r1),
            Self::take_step(q1, q2, id, r2),
        ensures
            r1 == q0.reply_of(id),
            r1 is Some,
            r2 is None,
            q2 == q1,
    {
    }

    /// One poll of a suspended command: a filled slot is consumed and
    /// returned; otherwise the caller's resumption token joins the waker
    /// set, to be woken by the next reaper pass, and nothing is consumed.
    pub fn poll<W>(
        &mut self,
        wakers: &mut WakerManager<W>,
        event_id: &String,
        waker: W,
    ) -> (r: Option<T>)
        requires
            old(self).wf(),
        ensures
            final(self).wf(),
            Self::take_step(*old(self), *final(self), event_id@, r),
            r is Some ==> *final(wakers) == *old(wakers),
            r is None ==> final(wakers).wakers@ == old(wakers).wakers@.push(waker),
    {
        let taken = self.take_ready(event_id);
        match taken {
            Some(v) => Some(v),
            None => {
                wakers.register(waker);
                None
            },
        }
    }

    /// One poll of a command awaited with a deadline: a filled slot is
    /// consumed and returned even at the deadline; with the deadline passed
    /// and no reply the wait ends as a timeout and the entry is dropped, so
    /// a reply arriving later finds nothing; before the deadline the caller
    /// keeps waiting. A timeout is never reported before the deadline.
    pub fn poll_wait(&mut self, event_id: &String, deadline: u64, now: u64) -> (r: WaitOutcome<T>)
        requires
            old(self).wf(),
        ensures
            final(self).wf(),
            old(self).has_pending(event_id@) && old(self).reply_of(event_id@) is Some ==> (
            r matches WaitOutcome::Ready(w) && Some(w) == old(self).reply_of(event_id@)
                && Self::remove_step(*old(self), *final(self), event_id@)),
            !(old(self).has_pending(event_id@) && old(self).reply_of(event_id@) is Some) && now
                >= deadline ==> r is TimedOut && Self::remove_step(
                *old(self),
                *final(self),
                event_id@,
            ),
            !(old(self).has_pending(event_id@) && old(self).reply_of(event_id@) is Some) && now
                < deadline ==> r is NotReady && *final(self) == *old(self),
            r is TimedOut ==> now >= deadline,
            now >= deadline ==> !(r is NotReady),
    {
        let taken = self.take_ready(event_id);
        match taken {
            Some(v) => {
                proof {
                    assert(Self::remove_step(*old(self), *self, event_id@));
                }
                WaitOutcome::Ready(v)
            },
            None => {
                if now >= deadline {
                    self.cancel_pending(event_id);
                    WaitOutcome::TimedOut
                } else {
                    WaitOutcome::NotReady
                }
            },
        }
    }

    /// Prepares a command to one session: the target's output channel is
    /// looked up in the registry and a fresh correlation id is entered into
    /// the pending table with an empty slot. The caller encodes the command
    /// under the returned id, writes it to the returned channel, and on a
    /// failed write aborts with [`ServerCommand::cancel_pending`].
    /// An unregistered target is refused without touching the table.
    pub fn send_command_prepare<C: Clone>(
        &mut self,
        room: &Room<C>,
        client_id: &String,
    ) -> (r: Result<(String, C), CommandError>)
        requires
            old(self).wf(),
            room.wf(),
        ensures
            final(self).wf(),
            !room.has_session(client_id@) ==> r == Err::<(String, C), CommandError>(
                CommandError::TargetNotFound,
            ) && *final(self) == *old(self),
            room.has_session(client_id@) ==> (r matches Ok((eid, chan)) && {
                &&& eid@.len() == 36
                &&& cloned::<C>(room.session_chan(client_id@), chan)
                &&& Self::insert_step(*old(self), *final(self), eid@)
            }),
    {
        match lookup_target(room, client_id) {
            Err(e) => Err(e),
            Ok(chan) => {
                let event_id = fresh_event_id();
                self.insert_pending(&event_id);
                Ok((event_id, chan))
            },
        }
    }

    /// A slot update at a known position, seen through the table's
    /// predicates.
    proof fn lemma_slot_update(pre: Self, post: Self, id: Seq<char>, i: int, v: Option<T>)
        requires
            pre.wf(),
            0 <= i < pre.queue@.len(),
            pre.queue@[i].0@ == id,
            post.queue@.len() == pre.queue@.len(),
            forall|j: int| 0 <= j < pre.queue@.len() && j != i ==> post.queue@[j] == pre.queue@[j],
            post.queue@[i].0 == pre.queue@[i].0,
            post.queue@[i].1 == v,
        ensures
            post.wf(),
            forall|x: Seq<char>| post.has_pending(x) <==> pre.has_pending(x),
            post.reply_of(id) == v,
            forall|x: Seq<char>|
                x != id && pre.has_pending(x) ==> post.reply_of(x) == pre.reply_of(x),
    {
        assert(forall|j: int|
            0 <= j < post.queue@.len() ==> (#[trigger] post.queue@[j]).0 == pre.queue@[j].0);
        assert forall|x: Seq<char>| post.has_pending(x) <==> pre.has_pending(x) by {
            if post.has_pending(x) {
                let k = post.pending_index(x);
                assert(pre.queue@[k].0@ == x);
            }
            if pre.has_pending(x) {
                let k = pre.pending_index(x);
                assert(post.queue@[k].0@ == x);
            }
        }
        post.lemma_pending_index_unique(id, i);
        assert forall|x: Seq<char>| x != id && pre.has_pending(x) implies post.reply_of(x)
            == pre.reply_of(x) by {
            let k = pre.pending_index(x);
            assert(0 <= k < pre.queue@.len() && pre.queue@[k].0@ == x);
            assert(k != i);
            pre.lemma_pending_index_unique(x, k);
            post.lemma_pending_index_unique(x, k);
        }
    }

    /// A fresh entry appended at the end, seen through the table's
    /// predicates.
    proof fn lemma_entry_pushed(pre: Self, post: Self, id: Seq<char>, v: Option<T>)
        requires
            pre.wf(),
            !pre.has_pending(id),
            post.queue@.len() == pre.queue@.len() + 1,
            forall|j: int| 0 <= j < pre.queue@.len() ==> post.queue@[j] == pre.queue@[j],
            post.queue@[pre.queue@.len() as int].0@ == id,
            post.queue@[pre.queue@.len() as int].1 == v,
        ensures
            post.wf(),
            forall|x: Seq<char>| post.has_pending(x) <==> pre.has_pending(x) || x == id,
            post.reply_of(id) == v,
            forall|x: Seq<char>|
                x != id && pre.has_pending(x) ==> post.reply_of(x) == pre.reply_of(x),
    {
        let n = pre.queue@.len() as int;
        assert(post.wf()) by {
            assert forall|i: int, j: int| 0 <= i < j < post.queue@.len() implies (
            #[trigger] post.queue@[i]).0@ != (#[trigger] post.queue@[j]).0@ by {
                if j < n {
                    assert(pre.queue@[i].0@ != pre.queue@[j].0@);
                } else {
                    if post.queue@[i].0@ == id {
                        assert(pre.queue@[i].0@ == id);
                        assert(pre.has_pending(id));
                    }
                }
            }
        }
        assert forall|x: Seq<char>| post.has_pending(x) <==> pre.has_pending(x) || x == id by {
            if post.has_pending(x) {
                let k = post.pending_index(x);
                if k < n {
                    assert(pre.queue@[k].0@ == x);
                }
            }
            if pre.has_pending(x) {
                let k = pre.pending_index(x);
                assert(post.queue@[k].0@ == x);
            }
            if x == id {
                assert(post.queue@[n].0@ == x);
            }
        }
        post.lemma_pending_index_unique(id, n);
        assert forall|x: Seq<char>| x != id && pre.has_pending(x) implies post.reply_of(x)
            == pre.reply_of(x) by {
            let k = pre.pending_index(x);
            assert(0 <= k < pre.queue@.len() && pre.queue@[k].0@ == x);
            pre.lemma_pending_index_unique(x, k);
            post.lemma_pending_index_unique(x, k);
        }
    }

    /// An entry removed from a known position, seen through the table's
    /// predicates.
    proof fn lemma_entry_removed(pre: Self, post: Self, id: Seq<char>, i: int)
        requires
            pre.wf(),
            0 <= i < pre.queue@.len(),
            pre.queue@[i].0@ == id,
            post.queue@ == pre.queue@.remove(i),
        ensures
            post.wf(),
            forall|x: Seq<char>| post.has_pending(x) <==> pre.has_pending(x) && x != id,
            forall|x: Seq<char>|
                x != id && pre.has_pending(x) ==> post.reply_of(x) == pre.reply_of(x),
    {
        pre.lemma_pending_index_unique(id, i);
        assert(post.wf()) by {
            assert forall|a: int, b: int| 0 <= a < b < post.queue@.len() implies (
            #[trigger] post.queue@[a]).0@ != (#[trigger] post.queue@[b]).0@ by {
                let ap = if a < i { a } else { a + 1 };
                let bp = if b < i { b } else { b + 1 };
                assert(pre.queue@[ap].0@ != pre.queue@[bp].0@);
            }
        }
        assert forall|x: Seq<char>| post.has_pending(x) <==> pre.has_pending(x) && x != id by {
            if post.has_pending(x) {
                let k = post.pending_index(x);
                let kp = if k < i { k } else { k + 1 };
                assert(pre.queue@[kp].0@ == x);
                if x == id {
                    pre.lemma_pending_index_unique(id, kp);
                }
            }
            if pre.has_pending(x) && x != id {
                let k = pre.pending_index(x);
                assert(0 <= k < pre.queue@.len() && pre.queue@[k].0@ == x);
                assert(k != i);
                let kp = if k < i { k } else { k - 1 };
                assert(post.queue@[kp].0@ == x);
            }
        }
        assert forall|x: Seq<char>| x != id && pre.has_pending(x) implies post.reply_of(x)
            == pre.reply_of(x) by {
            let k = pre.pending_index(x);
            assert(0 <= k < pre.queue@.len() && pre.queue@[k].0@ == x);
            pre.lemma_pending_index_unique(x, k);
            assert(k != i);
            let kp = if k < i { k } else { k - 1 };
            assert(post.queue@[kp] == pre.queue@[k]);
            post.lemma_pending_index_unique(x, kp);
        }
    }
}

/// Looks up the output channel of one registered session: this is the
/// target-resolution step shared by commands, indications and answers. An
/// unregistered target is the only failure, so a one-way send needs nothing
/// beyond it.
pub fn lookup_target<C: Clone>(room: &Room<C>, client_id: &String) -> (r: Result<
    C,
    CommandError,
>)
    requires
        room.wf(),
    ensures
        !room.has_session(client_id@) ==> r == Err::<C, CommandError>(CommandError::TargetNotFound),
        room.has_session(client_id@) ==> (r matches Ok(chan) && cloned::<C>(
            room.session_chan(client_id@),
            chan,
        )),
{
    let n = room.sessions.len();
    for i in 0..n
        invariant
            room.wf(),
            n == room.sessions@.len(),
            forall|j: int| 0 <= j < i ==> (#[trigger] room.sessions@[j]).0@ != client_id@,
    {
        if room.sessions[i].0.eq(client_id) {
            proof {
                room.lemma_session_index_unique(client_id@, i as int);
            }
            return Ok(room.sessions[i].2.clone());
        }
    }
    Err(CommandError::TargetNotFound)
}

impl<W> WakerManager<W> {
    /// An empty suspension registry.
    pub fn new() -> (r: WakerManager<W>)
        ensures
            r.wakers@.len() == 0,
    {
        WakerManager { wakers: Vec::new() }
    }

    /// Registers one suspended caller's resumption token.
    pub fn register(&mut self, waker: W)
        ensures
            final(self).wakers@ == old(self).wakers@.push(waker),
    {
        self.wakers.push(waker);
    }

    /// Takes every registered token at once, leaving the set empty: one
    /// reaper pass wakes all suspended callers, each of which re-checks its
    /// own completion and suspends again if still waiting.
    pub fn drain(&mut self) -> (r: Vec<W>)
        ensures
            r@ == old(self).wakers@,
            final(self).wakers@.len() == 0,
    {
        let mut out: Vec<W> = Vec::new();
        std::mem::swap(&mut out, &mut self.wakers);
        proof {
            assert(out@ =~= old(self).wakers@);
        }
        out
    }
}

} // verus!
