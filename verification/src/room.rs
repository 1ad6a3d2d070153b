//! The session registry: a mapping from session identity to connection
//! metadata and output channel, together with the derived room membership.
//!
//! The registry is the state guarded by the embedder's per-key critical
//! section: every operation here is one atomic step of that state, so a
//! duplicate `add` is rejected without mutating anything, and `add`/`remove`
//! keep the session table and the room map consistent in the same step.
//!
//! The channel type `C` is the embedder's output-channel handle; the registry
//! stores such handles and hands them back, and never looks inside them.

use vstd::prelude::*;

use crate::msg::{ActorError, ActorMsg, ConnInfo, Connect, Disconnect};

verus! {

/// The registry: live sessions keyed by session id, and rooms keyed by room
/// id, each room holding the ids of its member sessions.
///
/// Invariant ([`Room::wf`]): session keys are distinct and agree with their
/// metadata; a room exists iff it has at least one member; a session id is a
/// member of a room iff that session is registered and its connection id
/// names that room.
pub struct Room<C> {
    /// Live sessions: session id, handshake metadata, output channel.
    pub sessions: Vec<(String, ConnInfo, C)>,
    /// Rooms: room id and the session ids of the members.
    pub rooms: Vec<(String, Vec<String>)>,
}

impl<C> Room<C> {
    /// There is a registered session with this id.
    pub open spec fn has_session(self, sid: Seq<char>) -> bool {
        exists|i: int|
            0 <= i < self.sessions@.len() && (#[trigger] self.sessions@[i]).0@ == sid
    }

    /// The position of the session with this id (unique under [`Room::wf`]).
    pub open spec fn session_index(self, sid: Seq<char>) -> int {
        choose|i: int|
            0 <= i < self.sessions@.len() && (#[trigger] self.sessions@[i]).0@ == sid
    }

    /// The metadata stored for this session id.
    pub open spec fn session_conn(self, sid: Seq<char>) -> ConnInfo {
        self.sessions@[self.session_index(sid)].1
    }

    /// The output channel stored for this session id.
    pub open spec fn session_chan(self, sid: Seq<char>) -> C {
        self.sessions@[self.session_index(sid)].2
    }

    /// There is a room with this id.
    pub open spec fn has_room(self, rid: Seq<char>) -> bool {
        exists|i: int| 0 <= i < self.rooms@.len() && (#[trigger] self.rooms@[i]).0@ == rid
    }

    /// The position of the room with this id (unique under [`Room::wf`]).
    pub open spec fn room_index(self, rid: Seq<char>) -> int {
        choose|i: int| 0 <= i < self.rooms@.len() && (#[trigger] self.rooms@[i]).0@ == rid
    }

    /// The member ids of the room with this id.
    pub open spec fn members_of(self, rid: Seq<char>) -> Seq<Seq<char>> {
        self.rooms@[self.room_index(rid)].1@.map_values(|m: String| m@)
    }

    /// This session id is a member of this room.
    pub open spec fn room_has(self, rid: Seq<char>, sid: Seq<char>) -> bool {
        self.has_room(rid) && self.members_of(rid).contains(sid)
    }

    /// No two sessions share an id.
    pub open spec fn sessions_keys_distinct(self) -> bool {
        forall|i: int, j: int|
            0 <= i < j < self.sessions@.len() ==> (#[trigger] self.sessions@[i]).0@ != (
            #[trigger] self.sessions@[j]).0@
    }

    /// Every session is stored under the id derived from its metadata.
    pub open spec fn sessions_keys_consistent(self) -> bool {
        forall|i: int|
            0 <= i < self.sessions@.len() ==> (#[trigger] self.sessions@[i]).0@
                == self.sessions@[i].1.spec_session_id()
    }

    /// No two rooms share an id.
    pub open spec fn rooms_keys_distinct(self) -> bool {
        forall|i: int, j: int|
            0 <= i < j < self.rooms@.len() ==> (#[trigger] self.rooms@[i]).0@ != (
            #[trigger] self.rooms@[j]).0@
    }

    /// No room entry persists without members.
    pub open spec fn rooms_nonempty(self) -> bool {
        forall|i: int| 0 <= i < self.rooms@.len() ==> (#[trigger] self.rooms@[i]).1@.len() > 0
    }

    /// No room lists the same member twice.
    pub open spec fn rooms_members_distinct(self) -> bool {
        forall|i: int, j: int, k: int|
            0 <= i < self.rooms@.len() && 0 <= j < k < (#[trigger] self.rooms@[i]).1@.len()
                ==> (#[trigger] self.rooms@[i].1@[j])@ != (#[trigger] self.rooms@[i].1@[k])@
    }

    /// Every listed member is a registered session whose connection id names
    /// that very room.
    pub open spec fn members_sound(self) -> bool {
        forall|i: int, j: int|
            0 <= i < self.rooms@.len() && 0 <= j < (#[trigger] self.rooms@[i]).1@.len()
                ==> self.has_session(#[trigger] self.rooms@[i].1@[j]@) && self.session_conn(
                self.rooms@[i].1@[j]@,
            ).spec_room_id() == self.rooms@[i].0@
    }

    /// Every registered session is listed in its room.
    pub open spec fn sessions_enrolled(self) -> bool {
        forall|k: int|
            0 <= k < self.sessions@.len() ==> self.room_has(
                (#[trigger] self.sessions@[k]).1.spec_room_id(),
                self.sessions@[k].0@,
            )
    }

    /// Well-formedness: the invariant every registry operation preserves.
    pub open spec fn wf(self) -> bool {
        &&& self.sessions_keys_distinct()
        &&& self.sessions_keys_consistent()
        &&& self.rooms_keys_distinct()
        &&& self.rooms_nonempty()
        &&& self.rooms_members_distinct()
        &&& self.members_sound()
        &&& self.sessions_enrolled()
    }

    /// With distinct session keys, any position holding a given session id
    /// is the one `session_index` picks.
    pub proof fn lemma_session_index_unique(self, sid: Seq<char>, i: int)
        requires
            self.sessions_keys_distinct(),
            0 <= i < self.sessions@.len(),
            self.sessions@[i].0@ == sid,
        ensures
            self.session_index(sid) == i,
            self.has_session(sid),
    {
        assert(self.has_session(sid));
        let j = self.session_index(sid);
        if i < j {
            assert(self.sessions@[i].0@ != self.sessions@[j].0@);
        } else if j < i {
            assert(self.sessions@[j].0@ != self.sessions@[i].0@);
        }
    }

    /// With distinct room keys, any position holding a given room id is the
    /// one `room_index` picks.
    pub proof fn lemma_room_index_unique(self, rid: Seq<char>, i: int)
        requires
            self.rooms_keys_distinct(),
            0 <= i < self.rooms@.len(),
            self.rooms@[i].0@ == rid,
        ensures
            self.room_index(rid) == i,
            self.has_room(rid),
    {
        assert(self.has_room(rid));
        let j = self.room_index(rid);
        if i < j {
            assert(self.rooms@[i].0@ != self.rooms@[j].0@);
        } else if j < i {
            assert(self.rooms@[j].0@ != self.rooms@[i].0@);
        }
    }

    /// A room is present iff its member set is non-empty: rooms are derived
    /// from the sessions that name them, and the last member's removal
    /// deletes the room entry.
    pub proof fn lemma_room_present_iff_nonempty(self, rid: Seq<char>)
        requires
            self.wf(),
        ensures
            self.has_room(rid) <==> exists|sid: Seq<char>| self.room_has(rid, sid),
    {
        if self.has_room(rid) {
            let i = self.room_index(rid);
            assert(0 <= i < self.rooms@.len() && self.rooms@[i].0@ == rid);
            assert(self.rooms@[i].1@.len() > 0);
            let m = self.rooms@[i].1@[0];
            assert(self.members_of(rid).contains(m@)) by {
                assert(self.members_of(rid)[0] == m@);
            }
            assert(self.room_has(rid, m@));
        }
    }

    /// An empty registry.
    pub fn new() -> (r: Room<C>)
        ensures
            r.wf(),
            r.sessions@.len() == 0,
            r.rooms@.len() == 0,
            forall|sid: Seq<char>| !r.has_session(sid),
            forall|rid: Seq<char>| !r.has_room(rid),
    {
        Room { sessions: Vec::new(), rooms: Vec::new() }
    }

    /// The position of the session with this id, if it is registered.
    fn find_session(&self, sid: &String) -> (r: Option<usize>)
        ensures
            match r {
                Some(i) => i < self.sessions@.len() && self.sessions@[i as int].0@ == sid@,
                None => !self.has_session(sid@),
            },
    {
        let n = self.sessions.len();
        for i in 0..n
            invariant
                n == self.sessions@.len(),
                forall|j: int| 0 <= j < i ==> (#[trigger] self.sessions@[j]).0@ != sid@,
        {
            if self.sessions[i].0.eq(sid) {
                return Some(i);
            }
        }
        None
    }

    /// The position of the room with this id, if it exists.
    fn find_room(&self, rid: &String) -> (r: Option<usize>)
        ensures
            match r {
                Some(i) => i < self.rooms@.len() && self.rooms@[i as int].0@ == rid@,
                None => !self.has_room(rid@),
            },
    {
        let n = self.rooms.len();
        for i in 0..n
            invariant
                n == self.rooms@.len(),
                forall|j: int| 0 <= j < i ==> (#[trigger] self.rooms@[j]).0@ != rid@,
        {
            if self.rooms[i].0.eq(rid) {
                return Some(i);
            }
        }
        None
    }

    /// What one `add` call does to the registry state: a duplicate session
    /// id is rejected and the state is exactly unchanged; a fresh one is
    /// inserted, its room is created if this is the first member, and
    /// nothing else changes.
    pub open spec fn add_step(
        pre: Self,
        post: Self,
        conn: ConnInfo,
        chan: C,
        r: Result<ActorMsg, ActorError>,
    ) -> bool {
        &&& pre.has_session(conn.spec_session_id()) ==> {
            &&& r matches Err(ActorError::RoomAlreadyExisted(s)) && s@ == conn.spec_session_id()
            &&& post == pre
        }
        &&& !pre.has_session(conn.spec_session_id()) ==> {
            &&& r == Ok::<ActorMsg, ActorError>(ActorMsg::Accepted)
            &&& forall|s: Seq<char>|
                post.has_session(s) <==> pre.has_session(s) || s == conn.spec_session_id()
            &&& post.session_conn(conn.spec_session_id()) == conn
            &&& post.session_chan(conn.spec_session_id()) == chan
            &&& forall|s: Seq<char>|
                pre.has_session(s) ==> post.session_conn(s) == pre.session_conn(s)
                    && post.session_chan(s) == pre.session_chan(s)
            &&& forall|rm: Seq<char>, s: Seq<char>|
                post.room_has(rm, s) <==> pre.room_has(rm, s) || (rm == conn.spec_room_id() && s
                    == conn.spec_session_id())
            &&& forall|rm: Seq<char>|
                post.has_room(rm) <==> pre.has_room(rm) || rm == conn.spec_room_id()
        }
    }

    /// Registers a new session and enrols it in its room, in one atomic step
    /// of the registry state (see [`Room::add_step`]).
    pub fn add(&mut self, data: Connect<C>) -> (r: Result<ActorMsg, ActorError>)
        requires
            old(self).wf(),
        ensures
            final(self).wf(),
            Self::add_step(*old(self), *final(self), data.conn, data.addr, r),
    {
        let sid = data.conn.get_session_id();
        if self.find_session(&sid).is_some() {
            return Err(ActorError::RoomAlreadyExisted(sid));
        }
        let rid = data.conn.get_room_id();
        let ghost pre = *self;
        match self.find_room(&rid) {
            Some(ri) => {
                proof {
                    pre.lemma_room_index_unique(rid@, ri as int);
                }
                self.rooms[ri].1.push(sid.clone());
            },
            None => {
                let mut members: Vec<String> = Vec::new();
                members.push(sid.clone());
                self.rooms.push((rid, members));
            },
        }
        let Connect { addr, conn } = data;
        self.sessions.push((sid, conn, addr));
        proof {
            Self::lemma_add_ok(pre, *self, data, sid);
        }
        Ok(ActorMsg::Accepted)
    }

    /// What one `remove` call does to the registry state: an unknown session
    /// is a no-op; a registered one is deleted together with its room
    /// membership, and the room entry is deleted when it was the last member.
    pub open spec fn remove_step(pre: Self, post: Self, conn: ConnInfo) -> bool {
        &&& !pre.has_session(conn.spec_session_id()) ==> post == pre
        &&& pre.has_session(conn.spec_session_id()) ==> {
            let sid = conn.spec_session_id();
            &&& forall|s: Seq<char>| post.has_session(s) <==> pre.has_session(s) && s != sid
            &&& forall|s: Seq<char>|
                s != sid && pre.has_session(s) ==> post.session_conn(s) == pre.session_conn(s)
                    && post.session_chan(s) == pre.session_chan(s)
            &&& forall|rm: Seq<char>, s: Seq<char>|
                post.room_has(rm, s) <==> pre.room_has(rm, s) && s != sid
            &&& forall|rm: Seq<char>|
                post.has_room(rm) <==> exists|s: Seq<char>| s != sid && pre.room_has(rm, s)
        }
    }

    /// Deregisters a session and leaves its room, in one atomic step of the
    /// registry state (see [`Room::remove_step`]). Removing an unknown
    /// session is accepted and changes nothing.
    pub fn remove(&mut self, data: &Disconnect) -> (r: Result<ActorMsg, ActorError>)
        requires
            old(self).wf(),
        ensures
            final(self).wf(),
            r == Ok::<ActorMsg, ActorError>(ActorMsg::Accepted),
            Self::remove_step(*old(self), *final(self), data.conn),
    {
        let sid = data.conn.get_session_id();
        let ghost pre = *self;
        match self.find_session(&sid) {
            None => Ok(ActorMsg::Accepted),
            Some(si) => {
                proof {
                    pre.lemma_session_index_unique(sid@, si as int);
                }
                let entry = self.sessions.remove(si);
                let rid = entry.1.get_room_id();
                proof {
                    assert(pre.room_has(rid@, sid@)) by {
                        assert(pre.room_has(
                            pre.sessions@[si as int].1.spec_room_id(),
                            pre.sessions@[si as int].0@,
                        ));
                    }
                }
                let ro = self.find_room(&rid);
                proof {
                    assert(ro is Some) by {
                        if ro is None {
                            assert(pre.has_room(rid@));
                            let i = pre.room_index(rid@);
                            assert(self.rooms@[i].0@ == rid@);
                        }
                    }
                }
                let ri = ro.unwrap();
                proof {
                    pre.lemma_room_index_unique(rid@, ri as int);
                }
                let mo = Self::find_string(&self.rooms[ri].1, &sid);
                proof {
                    assert(mo is Some) by {
                        if mo is None {
                            assert(pre.members_of(rid@).contains(sid@));
                            let j = choose|j: int|
                                0 <= j < pre.members_of(rid@).len() && pre.members_of(rid@)[j]
                                    == sid@;
                            assert(pre.rooms@[ri as int].1@[j]@ == sid@);
                        }
                    }
                }
                let mj = mo.unwrap();
                self.rooms[ri].1.remove(mj);
                if self.rooms[ri].1.len() == 0 {
                    self.rooms.remove(ri);
                }
                proof {
                    if pre.rooms@[ri as int].1@.len() == 1 {
                        assert(self.rooms@ =~= pre.rooms@.remove(ri as int));
                    }
                    Self::lemma_remove_ok(pre, *self, sid@, si as int, ri as int, mj as int);
                }
                Ok(ActorMsg::Accepted)
            },
        }
    }

    /// Registry uniqueness: of all `add` calls racing on one session id and
    /// run in some order through the registry's critical section, the first
    /// succeeds, and every call that finds the id present fails with a
    /// duplicate error and leaves the registry exactly as it found it.
    pub proof fn lemma_add_exactly_once(
        r0: Self,
        r1: Self,
        c1: ConnInfo,
        ch1: C,
        res1: Result<ActorMsg, ActorError>,
        rk: Self,
        rk1: Self,
        c2: ConnInfo,
        ch2: C,
        res2: Result<ActorMsg, ActorError>,
    )
        requires
            !r0.has_session(c1.spec_session_id()),
            Self::add_step(r0, r1, c1, ch1, res1),
            rk.has_session(c1.spec_session_id()),
            c2.spec_session_id() == c1.spec_session_id(),
            Self::add_step(rk, rk1, c2, ch2, res2),
        ensures
            res1 == Ok::<ActorMsg, ActorError>(ActorMsg::Accepted),
            r1.has_session(c1.spec_session_id()),
            res2 matches Err(ActorError::RoomAlreadyExisted(s)) && s@ == c1.spec_session_id(),
            rk1 == rk,
    {
    }

    /// The ids of all registered sessions, in registry order.
    pub fn get_client_id_list(&self) -> (r: Vec<String>)
        ensures
            r@.len() == self.sessions@.len(),
            forall|i: int| 0 <= i < r@.len() ==> (#[trigger] r@[i])@ == self.sessions@[i].0@,
    {
        let mut out: Vec<String> = Vec::new();
        let n = self.sessions.len();
        for i in 0..n
            invariant
                n == self.sessions@.len(),
                out@.len() == i,
                forall|j: int| 0 <= j < i ==> (#[trigger] out@[j])@ == self.sessions@[j].0@,
        {
            out.push(self.sessions[i].0.clone());
        }
        out
    }

    /// The metadata of all registered sessions, in registry order.
    pub fn get_client_conn_info_list(&self) -> (r: Vec<ConnInfo>)
        ensures
            r@.len() == self.sessions@.len(),
            forall|i: int| 0 <= i < r@.len() ==> #[trigger] r@[i] == self.sessions@[i].1,
    {
        let mut out: Vec<ConnInfo> = Vec::new();
        let n = self.sessions.len();
        for i in 0..n
            invariant
                n == self.sessions@.len(),
                out@.len() == i,
                forall|j: int| 0 <= j < i ==> #[trigger] out@[j] == self.sessions@[j].1,
        {
            out.push(self.sessions[i].1.clone());
        }
        out
    }

    /// Whether some session was opened under this connection id; under the
    /// registry invariant this is exactly whether the room exists.
    pub fn has_client_conn(&self, connid: &String) -> (r: bool)
        requires
            self.wf(),
        ensures
            r == self.has_room(connid@),
    {
        let n = self.sessions.len();
        for i in 0..n
            invariant
                self.wf(),
                n == self.sessions@.len(),
                forall|j: int| 0 <= j < i ==> (#[trigger] self.sessions@[j]).1.connid@ != connid@,
        {
            if self.sessions[i].1.connid.eq(connid) {
                proof {
                    assert(self.room_has(
                        self.sessions@[i as int].1.spec_room_id(),
                        self.sessions@[i as int].0@,
                    ));
                }
                return true;
            }
        }
        proof {
            if self.has_room(connid@) {
                let ri = self.room_index(connid@);
                assert(0 <= ri < self.rooms@.len() && self.rooms@[ri].0@ == connid@);
                assert(self.rooms@[ri].1@.len() > 0);
                let m = self.rooms@[ri].1@[0]@;
                assert(self.has_session(m) && self.session_conn(m).spec_room_id() == connid@);
                let si = self.session_index(m);
                assert(self.sessions@[si].1.connid@ == connid@);
            }
        }
        false
    }

    /// The id of some session opened under this connection id, if any; the
    /// choice among several members of the room is the registry's.
    pub fn get_client_id_by_conn(&self, connid: &String) -> (r: Option<String>)
        requires
            self.wf(),
        ensures
            r is Some <==> self.has_room(connid@),
            r matches Some(s) ==> self.has_session(s@) && self.session_conn(s@).connid@
                == connid@,
    {
        let n = self.sessions.len();
        for i in 0..n
            invariant
                self.wf(),
                n == self.sessions@.len(),
                forall|j: int| 0 <= j < i ==> (#[trigger] self.sessions@[j]).1.connid@ != connid@,
        {
            if self.sessions[i].1.connid.eq(connid) {
                proof {
                    assert(self.room_has(
                        self.sessions@[i as int].1.spec_room_id(),
                        self.sessions@[i as int].0@,
                    ));
                    self.lemma_session_index_unique(self.sessions@[i as int].0@, i as int);
                }
                return Some(self.sessions[i].1.get_session_id());
            }
        }
        proof {
            if self.has_room(connid@) {
                let ri = self.room_index(connid@);
                assert(0 <= ri < self.rooms@.len() && self.rooms@[ri].0@ == connid@);
                assert(self.rooms@[ri].1@.len() > 0);
                let m = self.rooms@[ri].1@[0]@;
                assert(self.has_session(m) && self.session_conn(m).spec_room_id() == connid@);
                let si = self.session_index(m);
                assert(self.sessions@[si].1.connid@ == connid@);
            }
        }
        None
    }

    /// The position of this string in the list, if it occurs.
    fn find_string(v: &Vec<String>, s: &String) -> (r: Option<usize>)
        ensures
            match r {
                Some(j) => j < v@.len() && v@[j as int]@ == s@,
                None => forall|j: int| 0 <= j < v@.len() ==> (#[trigger] v@[j])@ != s@,
            },
    {
        let n = v.len();
        for i in 0..n
            invariant
                n == v@.len(),
                forall|j: int| 0 <= j < i ==> (#[trigger] v@[j])@ != s@,
        {
            if v[i].eq(s) {
                return Some(i);
            }
        }
        None
    }

    /// Correctness of removing a registered session: the new state is well
    /// formed and relates to the old one as the contract of `remove` states.
    #[verifier::rlimit(80)]
    proof fn lemma_remove_ok(pre: Self, post: Self, sid: Seq<char>, si: int, ri: int, mj: int)
        requires
            pre.wf(),
            0 <= si < pre.sessions@.len(),
            pre.sessions@[si].0@ == sid,
            pre.session_index(sid) == si,
            0 <= ri < pre.rooms@.len(),
            pre.rooms@[ri].0@ == pre.sessions@[si].1.spec_room_id(),
            0 <= mj < pre.rooms@[ri].1@.len(),
            pre.rooms@[ri].1@[mj]@ == sid,
            post.sessions@ == pre.sessions@.remove(si),
            pre.rooms@[ri].1@.len() > 1 ==> {
                &&& post.rooms@.len() == pre.rooms@.len()
                &&& forall|i: int|
                    0 <= i < post.rooms@.len() && i != ri ==> post.rooms@[i] == pre.rooms@[i]
                &&& post.rooms@[ri].0 == pre.rooms@[ri].0
                &&& post.rooms@[ri].1@ == pre.rooms@[ri].1@.remove(mj)
            },
            pre.rooms@[ri].1@.len() == 1 ==> post.rooms@ == pre.rooms@.remove(ri),
        ensures
            post.wf(),
            forall|s: Seq<char>| post.has_session(s) <==> pre.has_session(s) && s != sid,
            forall|s: Seq<char>|
                s != sid && pre.has_session(s) ==> post.session_conn(s) == pre.session_conn(s)
                    && post.session_chan(s) == pre.session_chan(s),
            forall|rm: Seq<char>, s: Seq<char>|
                post.room_has(rm, s) <==> pre.room_has(rm, s) && s != sid,
            forall|rm: Seq<char>|
                post.has_room(rm) <==> exists|s: Seq<char>| s != sid && pre.room_has(rm, s),
    {
        let rid = pre.rooms@[ri].0@;
        let oslen = pre.sessions@.len() as int;

        // Sessions: entry `si` is gone, everything else only shifts.
        assert forall|s: Seq<char>| post.has_session(s) <==> pre.has_session(s) && s
            != sid by {
            if post.has_session(s) {
                let i = choose|i: int|
                    0 <= i < post.sessions@.len() && (#[trigger] post.sessions@[i]).0@ == s;
                let ip = if i < si { i } else { i + 1 };
                assert(pre.sessions@[ip].0@ == s);
                assert(pre.has_session(s));
                if s == sid {
                    pre.lemma_session_index_unique(sid, ip);
                }
            }
            if pre.has_session(s) && s != sid {
                let i = choose|i: int|
                    0 <= i < pre.sessions@.len() && (#[trigger] pre.sessions@[i]).0@ == s;
                if i != si {
                    let ip = if i < si { i } else { i - 1 };
                    assert(post.sessions@[ip].0@ == s);
                    assert(post.has_session(s));
                }
            }
        }
        assert(post.sessions_keys_distinct()) by {
            assert forall|i: int, j: int| 0 <= i < j < post.sessions@.len() implies (
            #[trigger] post.sessions@[i]).0@ != (#[trigger] post.sessions@[j]).0@ by {
                let ip = if i < si { i } else { i + 1 };
                let jp = if j < si { j } else { j + 1 };
                assert(pre.sessions@[ip].0@ != pre.sessions@[jp].0@);
            }
        }
        assert(post.sessions_keys_consistent()) by {
            assert forall|i: int| 0 <= i < post.sessions@.len() implies (
            #[trigger] post.sessions@[i]).0@ == post.sessions@[i].1.spec_session_id() by {
                let ip = if i < si { i } else { i + 1 };
                assert(post.sessions@[i] == pre.sessions@[ip]);
            }
        }
        assert forall|s: Seq<char>| s != sid && pre.has_session(s) implies post.session_conn(s)
            == pre.session_conn(s) && post.session_chan(s) == pre.session_chan(s) by {
            let i = pre.session_index(s);
            assert(0 <= i < pre.sessions@.len() && pre.sessions@[i].0@ == s) by {
                assert(pre.has_session(s));
            }
            assert(i != si);
            let ip = if i < si { i } else { i - 1 };
            assert(post.sessions@[ip] == pre.sessions@[i]);
            pre.lemma_session_index_unique(s, i);
            post.lemma_session_index_unique(s, ip);
        }

        // No session other than `si` lives in room `ri` when it has a single
        // member, and `sid` is a member of no room but `ri`.
        assert forall|i: int, j: int|
            0 <= i < pre.rooms@.len() && 0 <= j < pre.rooms@[i].1@.len() && (
            #[trigger] pre.rooms@[i].1@[j])@ == sid implies i == ri && j == mj by {
            assert(pre.session_conn(sid).spec_room_id() == pre.rooms@[i].0@);
            assert(pre.session_conn(sid) == pre.sessions@[si].1);
            assert(pre.rooms@[i].0@ == rid);
            if i != ri {
                if i < ri {
                    assert(pre.rooms@[i].0@ != pre.rooms@[ri].0@);
                } else {
                    assert(pre.rooms@[ri].0@ != pre.rooms@[i].0@);
                }
            }
            if j != mj {
                if j < mj {
                    assert(pre.rooms@[i].1@[j]@ != pre.rooms@[i].1@[mj]@);
                } else {
                    assert(pre.rooms@[i].1@[mj]@ != pre.rooms@[i].1@[j]@);
                }
            }
        }

        if pre.rooms@[ri].1@.len() > 1 {
            let oldm = pre.rooms@[ri].1@;
            let newm = oldm.remove(mj);
            assert(post.rooms@[ri].1@ == newm);
            assert(forall|i: int|
                0 <= i < post.rooms@.len() ==> (#[trigger] post.rooms@[i]).0 == pre.rooms@[i].0);
            assert(post.rooms_keys_distinct());
            assert(post.rooms_nonempty());
            assert(post.rooms_members_distinct()) by {
                assert forall|i: int, j: int, k: int|
                    0 <= i < post.rooms@.len() && 0 <= j < k < (
                #[trigger] post.rooms@[i]).1@.len() implies (#[trigger] post.rooms@[i].1@[j])@ != (
                #[trigger] post.rooms@[i].1@[k])@ by {
                    if i == ri {
                        let jp = if j < mj { j } else { j + 1 };
                        let kp = if k < mj { k } else { k + 1 };
                        assert(pre.rooms@[i].1@[jp]@ != pre.rooms@[i].1@[kp]@);
                    } else {
                        assert(pre.rooms@[i].1@[j]@ != pre.rooms@[i].1@[k]@);
                    }
                }
            }
            // Every remaining member is a session other than the removed one.
            assert forall|i: int, j: int|
                0 <= i < post.rooms@.len() && 0 <= j < post.rooms@[i].1@.len() implies {
                let m = (#[trigger] post.rooms@[i].1@[j])@;
                &&& m != sid
                &&& pre.has_session(m)
                &&& pre.session_conn(m).spec_room_id() == post.rooms@[i].0@
            } by {
                let jp = if i == ri && j >= mj { j + 1 } else { j };
                assert(post.rooms@[i].1@[j] == pre.rooms@[i].1@[jp]);
                let m = pre.rooms@[i].1@[jp]@;
                if m == sid {
                    assert(i == ri && jp == mj);
                }
            }
            assert(post.members_sound()) by {
                assert forall|i: int, j: int|
                    0 <= i < post.rooms@.len() && 0 <= j < (
                #[trigger] post.rooms@[i]).1@.len() implies post.has_session(
                    #[trigger] post.rooms@[i].1@[j]@,
                ) && post.session_conn(post.rooms@[i].1@[j]@).spec_room_id()
                    == post.rooms@[i].0@ by {
                    let m = post.rooms@[i].1@[j]@;
                    assert(m != sid && pre.has_session(m));
                    assert(post.session_conn(m) == pre.session_conn(m));
                }
            }
            // Membership: exactly the pair (rid, sid) is gone.
            assert forall|rm: Seq<char>, s: Seq<char>| post.room_has(rm, s) <==> pre.room_has(
                rm,
                s,
            ) && s != sid by {
                if post.has_room(rm) {
                    let i = post.room_index(rm);
                    assert(pre.rooms@[i].0@ == rm);
                    pre.lemma_room_index_unique(rm, i);
                    if i == ri {
                        if post.room_has(rm, s) {
                            let j = choose|j: int|
                                0 <= j < post.members_of(rm).len() && post.members_of(rm)[j] == s;
                            let jp = if j < mj { j } else { j + 1 };
                            assert(pre.members_of(rm)[jp] == s);
                            assert(pre.room_has(rm, s));
                            assert(s != sid);
                        }
                        if pre.room_has(rm, s) && s != sid {
                            let j = choose|j: int|
                                0 <= j < pre.members_of(rm).len() && pre.members_of(rm)[j] == s;
                            assert(pre.rooms@[ri].1@[j]@ == s);
                            assert(j != mj);
                            let jp = if j < mj { j } else { j - 1 };
                            assert(post.members_of(rm)[jp] == s);
                            assert(post.room_has(rm, s));
                        }
                    } else {
                        assert(post.members_of(rm) == pre.members_of(rm)) by {
                            assert(post.rooms@[i] == pre.rooms@[i]);
                        }
                        if pre.room_has(rm, s) && s == sid {
                            let j = choose|j: int|
                                0 <= j < pre.members_of(rm).len() && pre.members_of(rm)[j] == s;
                            assert(pre.rooms@[i].1@[j]@ == sid);
                            assert(i == ri);
                        }
                    }
                } else {
                    assert(!pre.has_room(rm)) by {
                        if pre.has_room(rm) {
                            let i = pre.room_index(rm);
                            assert(post.rooms@[i].0@ == rm);
                        }
                    }
                }
            }
            assert forall|rm: Seq<char>| post.has_room(rm) <==> exists|s: Seq<char>|
                s != sid && pre.room_has(rm, s) by {
                if post.has_room(rm) {
                    let i = post.room_index(rm);
                    assert(post.rooms@[i].1@.len() > 0);
                    let m = post.rooms@[i].1@[0]@;
                    assert(post.room_has(rm, m)) by {
                        assert(post.members_of(rm)[0] == m);
                    }
                    assert(pre.room_has(rm, m) && m != sid);
                }
                if exists|s: Seq<char>| s != sid && pre.room_has(rm, s) {
                    let s = choose|s: Seq<char>| s != sid && pre.room_has(rm, s);
                    let i = pre.room_index(rm);
                    assert(0 <= i < pre.rooms@.len() && pre.rooms@[i].0@ == rm);
                    assert(post.rooms@[i].0@ == rm);
                    assert(post.has_room(rm));
                }
            }
        } else {
            // The room had this one member; its entry is gone with it.
            assert(pre.rooms@[ri].1@.len() == 1);
            assert(mj == 0);
            assert(post.rooms@ == pre.rooms@.remove(ri));
            assert(post.rooms_keys_distinct()) by {
                assert forall|i: int, j: int| 0 <= i < j < post.rooms@.len() implies (
                #[trigger] post.rooms@[i]).0@ != (#[trigger] post.rooms@[j]).0@ by {
                    let ip = if i < ri { i } else { i + 1 };
                    let jp = if j < ri { j } else { j + 1 };
                    assert(pre.rooms@[ip].0@ != pre.rooms@[jp].0@);
                }
            }
            assert(post.rooms_nonempty()) by {
                assert forall|i: int| 0 <= i < post.rooms@.len() implies (
                #[trigger] post.rooms@[i]).1@.len() > 0 by {
                    let ip = if i < ri { i } else { i + 1 };
                    assert(post.rooms@[i] == pre.rooms@[ip]);
                }
            }
            assert(post.rooms_members_distinct()) by {
                assert forall|i: int, j: int, k: int|
                    0 <= i < post.rooms@.len() && 0 <= j < k < (
                #[trigger] post.rooms@[i]).1@.len() implies (#[trigger] post.rooms@[i].1@[j])@ != (
                #[trigger] post.rooms@[i].1@[k])@ by {
                    let ip = if i < ri { i } else { i + 1 };
                    assert(post.rooms@[i] == pre.rooms@[ip]);
                    assert(pre.rooms@[ip].1@[j]@ != pre.rooms@[ip].1@[k]@);
                }
            }
            assert forall|i: int, j: int|
                0 <= i < post.rooms@.len() && 0 <= j < post.rooms@[i].1@.len() implies {
                let m = (#[trigger] post.rooms@[i].1@[j])@;
                &&& m != sid
                &&& pre.has_session(m)
                &&& pre.session_conn(m).spec_room_id() == post.rooms@[i].0@
            } by {
                let ip = if i < ri { i } else { i + 1 };
                assert(post.rooms@[i] == pre.rooms@[ip]);
                let m = pre.rooms@[ip].1@[j]@;
                if m == sid {
                    assert(ip == ri && j == mj);
                }
            }
            assert(post.members_sound()) by {
                assert forall|i: int, j: int|
                    0 <= i < post.rooms@.len() && 0 <= j < (
                #[trigger] post.rooms@[i]).1@.len() implies post.has_session(
                    #[trigger] post.rooms@[i].1@[j]@,
                ) && post.session_conn(post.rooms@[i].1@[j]@).spec_room_id()
                    == post.rooms@[i].0@ by {
                    let m = post.rooms@[i].1@[j]@;
                    assert(m != sid && pre.has_session(m));
                    assert(post.session_conn(m) == pre.session_conn(m));
                }
            }
            assert forall|rm: Seq<char>, s: Seq<char>| post.room_has(rm, s) <==> pre.room_has(
                rm,
                s,
            ) && s != sid by {
                if post.has_room(rm) {
                    let i = post.room_index(rm);
                    let ip = if i < ri { i } else { i + 1 };
                    assert(post.rooms@[i] == pre.rooms@[ip]);
                    pre.lemma_room_index_unique(rm, ip);
                    assert(post.members_of(rm) == pre.members_of(rm)) by {
                        assert(pre.rooms@[pre.room_index(rm)] == post.rooms@[i]);
                    }
                    if post.room_has(rm, s) && s == sid {
                        let j = choose|j: int|
                            0 <= j < post.members_of(rm).len() && post.members_of(rm)[j] == s;
                        assert(post.rooms@[i].1@[j]@ == sid);
                        assert(pre.rooms@[ip].1@[j]@ == sid);
                        // The removed room's position is the only one that
                        // could hold the removed member, yet `ip` skips it.
                        assert(ip == ri);
                        assert(ip != ri);
                    }
                } else {
                    if pre.room_has(rm, s) && s != sid {
                        let i = pre.room_index(rm);
                        assert(0 <= i < pre.rooms@.len() && pre.rooms@[i].0@ == rm);
                        assert(i == ri) by {
                            if i != ri {
                                let ip = if i < ri { i } else { i - 1 };
                                assert(post.rooms@[ip] == pre.rooms@[i]);
                                assert(post.has_room(rm));
                            }
                        }
                        let j = choose|j: int|
                            0 <= j < pre.members_of(rm).len() && pre.members_of(rm)[j] == s;
                        assert(pre.rooms@[ri].1@[j]@ == s);
                        assert(j == mj && s == sid);
                    }
                }
            }
            assert forall|rm: Seq<char>| post.has_room(rm) <==> exists|s: Seq<char>|
                s != sid && pre.room_has(rm, s) by {
                if post.has_room(rm) {
                    let i = post.room_index(rm);
                    assert(post.rooms@[i].1@.len() > 0);
                    let m = post.rooms@[i].1@[0]@;
                    assert(post.room_has(rm, m)) by {
                        assert(post.members_of(rm)[0] == m);
                    }
                    assert(pre.room_has(rm, m) && m != sid);
                }
                if exists|s: Seq<char>| s != sid && pre.room_has(rm, s) {
                    let s = choose|s: Seq<char>| s != sid && pre.room_has(rm, s);
                    let i = pre.room_index(rm);
                    assert(0 <= i < pre.rooms@.len() && pre.rooms@[i].0@ == rm);
                    assert(i != ri) by {
                        if i == ri {
                            let j = choose|j: int|
                                0 <= j < pre.members_of(rm).len() && pre.members_of(rm)[j] == s;
                            assert(pre.rooms@[ri].1@[j]@ == s);
                            assert(j == mj && s == sid);
                        }
                    }
                    let ip = if i < ri { i } else { i - 1 };
                    assert(post.rooms@[ip] == pre.rooms@[i]);
                    assert(post.has_room(rm));
                }
            }
        }

        // Every remaining session is still enrolled in its room.
        assert(post.sessions_enrolled()) by {
            assert forall|k: int| 0 <= k < post.sessions@.len() implies post.room_has(
                (#[trigger] post.sessions@[k]).1.spec_room_id(),
                post.sessions@[k].0@,
            ) by {
                let kp = if k < si { k } else { k + 1 };
                assert(post.sessions@[k] == pre.sessions@[kp]);
                assert(pre.room_has(
                    pre.sessions@[kp].1.spec_room_id(),
                    pre.sessions@[kp].0@,
                ));
                assert(pre.sessions@[kp].0@ != sid) by {
                    if kp != si {
                        if kp < si {
                            assert(pre.sessions@[kp].0@ != pre.sessions@[si].0@);
                        } else {
                            assert(pre.sessions@[si].0@ != pre.sessions@[kp].0@);
                        }
                    }
                }
            }
        }
    }

    /// Correctness of a non-duplicate `add`: the new state is well formed and
    /// relates to the old one as the contract of `add` states.
    proof fn lemma_add_ok(pre: Self, post: Self, data: Connect<C>, sid: String)
        requires
            pre.wf(),
            !pre.has_session(data.conn.spec_session_id()),
            sid@ == data.conn.spec_session_id(),
            post.sessions@ == pre.sessions@.push((sid, data.conn, data.addr)),
            pre.has_room(data.conn.spec_room_id()) ==> {
                let ri = pre.room_index(data.conn.spec_room_id());
                &&& post.rooms@.len() == pre.rooms@.len()
                &&& forall|i: int|
                    0 <= i < post.rooms@.len() && i != ri ==> post.rooms@[i] == pre.rooms@[i]
                &&& post.rooms@[ri].0 == pre.rooms@[ri].0
                &&& post.rooms@[ri].1@ == pre.rooms@[ri].1@.push(sid)
            },
            !pre.has_room(data.conn.spec_room_id()) ==> {
                &&& post.rooms@.len() == pre.rooms@.len() + 1
                &&& forall|i: int| 0 <= i < pre.rooms@.len() ==> post.rooms@[i] == pre.rooms@[i]
                &&& post.rooms@[pre.rooms@.len() as int].0@ == data.conn.spec_room_id()
                &&& post.rooms@[pre.rooms@.len() as int].1@ == seq![sid]
            },
        ensures
            post.wf(),
            forall|s: Seq<char>|
                post.has_session(s) <==> pre.has_session(s) || s == data.conn.spec_session_id(),
            post.session_conn(data.conn.spec_session_id()) == data.conn,
            post.session_chan(data.conn.spec_session_id()) == data.addr,
            forall|s: Seq<char>|
                pre.has_session(s) ==> post.session_conn(s) == pre.session_conn(s)
                    && post.session_chan(s) == pre.session_chan(s),
            forall|rm: Seq<char>, s: Seq<char>|
                post.room_has(rm, s) <==> pre.room_has(rm, s) || (rm == data.conn.spec_room_id()
                    && s == data.conn.spec_session_id()),
            forall|rm: Seq<char>|
                post.has_room(rm) <==> pre.has_room(rm) || rm == data.conn.spec_room_id(),
    {
        let nsid = data.conn.spec_session_id();
        let nrid = data.conn.spec_room_id();
        let oslen = pre.sessions@.len() as int;

        // Sessions: the old entries are unchanged and one entry is appended.
        assert forall|s: Seq<char>| post.has_session(s) implies pre.has_session(s) || s
            == nsid by {
            let i = choose|i: int|
                0 <= i < post.sessions@.len() && (#[trigger] post.sessions@[i]).0@ == s;
            if i < oslen {
                assert(pre.sessions@[i].0@ == s);
            }
        }
        assert forall|s: Seq<char>| pre.has_session(s) || s == nsid implies post.has_session(
            s,
        ) by {
            if pre.has_session(s) {
                let i = choose|i: int|
                    0 <= i < pre.sessions@.len() && (#[trigger] pre.sessions@[i]).0@ == s;
                assert(post.sessions@[i].0@ == s);
            } else {
                assert(post.sessions@[oslen].0@ == s);
            }
        }
        assert(post.sessions_keys_distinct()) by {
            assert forall|i: int, j: int| 0 <= i < j < post.sessions@.len() implies (
            #[trigger] post.sessions@[i]).0@ != (#[trigger] post.sessions@[j]).0@ by {
                if j < oslen {
                    assert(pre.sessions@[i].0@ != pre.sessions@[j].0@);
                } else {
                    assert(post.sessions@[j].0@ == nsid);
                    if post.sessions@[i].0@ == nsid {
                        assert(pre.sessions@[i].0@ == nsid);
                        assert(pre.has_session(nsid));
                    }
                }
            }
        }
        assert(post.sessions_keys_consistent());

        // Accessors for the appended session.
        post.lemma_session_index_unique(nsid, oslen);
        assert(post.session_conn(nsid) == data.conn);
        assert(post.session_chan(nsid) == data.addr);

        // Accessors for previously registered sessions are unchanged.
        assert forall|s: Seq<char>| pre.has_session(s) implies post.session_conn(s)
            == pre.session_conn(s) && post.session_chan(s) == pre.session_chan(s) by {
            let i = pre.session_index(s);
            assert(0 <= i < oslen && pre.sessions@[i].0@ == s);
            pre.lemma_session_index_unique(s, i);
            post.lemma_session_index_unique(s, i);
        }

        // Rooms: case split on whether the room already existed.
        if pre.has_room(nrid) {
            let ri = pre.room_index(nrid);
            assert(0 <= ri < pre.rooms@.len() && pre.rooms@[ri].0@ == nrid);
            let oldm = pre.rooms@[ri].1@;
            assert(post.rooms@[ri].1@ == oldm.push(sid));
            assert(forall|i: int|
                0 <= i < post.rooms@.len() ==> (#[trigger] post.rooms@[i]).0 == pre.rooms@[i].0);
            assert(post.rooms_keys_distinct());
            assert(post.rooms_nonempty());

            // The new member was no session before, so it was no member.
            assert forall|i: int, j: int|
                0 <= i < pre.rooms@.len() && 0 <= j < pre.rooms@[i].1@.len() implies (
            #[trigger] pre.rooms@[i].1@[j])@ != nsid by {
                if pre.rooms@[i].1@[j]@ == nsid {
                    assert(pre.has_session(nsid));
                }
            }
            assert(post.rooms_members_distinct()) by {
                assert forall|i: int, j: int, k: int|
                    0 <= i < post.rooms@.len() && 0 <= j < k < (
                #[trigger] post.rooms@[i]).1@.len() implies (#[trigger] post.rooms@[i].1@[j])@ != (
                #[trigger] post.rooms@[i].1@[k])@ by {
                    if i == ri {
                        if k < oldm.len() {
                            assert(pre.rooms@[i].1@[j]@ != pre.rooms@[i].1@[k]@);
                        } else {
                            assert(post.rooms@[i].1@[k] == sid);
                            assert(pre.rooms@[i].1@[j]@ != nsid);
                        }
                    } else {
                        assert(pre.rooms@[i].1@[j]@ != pre.rooms@[i].1@[k]@);
                    }
                }
            }
            assert(post.members_sound()) by {
                assert forall|i: int, j: int|
                    0 <= i < post.rooms@.len() && 0 <= j < (
                #[trigger] post.rooms@[i]).1@.len() implies post.has_session(
                    #[trigger] post.rooms@[i].1@[j]@,
                ) && post.session_conn(post.rooms@[i].1@[j]@).spec_room_id()
                    == post.rooms@[i].0@ by {
                    if i == ri && j == oldm.len() {
                        assert(post.rooms@[i].1@[j] == sid);
                        assert(post.session_conn(nsid) == data.conn);
                    } else {
                        assert(pre.rooms@[i].1@[j]@ == post.rooms@[i].1@[j]@);
                        assert(pre.has_session(pre.rooms@[i].1@[j]@));
                    }
                }
            }
            // Membership is preserved and extended by exactly the new pair.
            assert forall|rm: Seq<char>| post.has_room(rm) <==> pre.has_room(rm) || rm
                == nrid by {
                if post.has_room(rm) {
                    let i = post.room_index(rm);
                    assert(pre.rooms@[i].0@ == rm);
                    assert(pre.has_room(rm));
                }
                if pre.has_room(rm) {
                    let i = pre.room_index(rm);
                    assert(post.rooms@[i].0@ == rm);
                    assert(post.has_room(rm));
                }
                if rm == nrid {
                    assert(post.rooms@[ri].0@ == rm);
                    assert(post.has_room(rm));
                }
            }
            assert forall|rm: Seq<char>, s: Seq<char>| post.room_has(rm, s) <==> pre.room_has(
                rm,
                s,
            ) || (rm == nrid && s == nsid) by {
                Self::lemma_member_seqs(pre, post, rm, ri, oldm, sid);
            }
        } else {
            let orlen = pre.rooms@.len() as int;
            assert(post.rooms@[orlen].0@ == nrid && post.rooms@[orlen].1@ == seq![sid]);
            assert(post.rooms_keys_distinct()) by {
                assert forall|i: int, j: int| 0 <= i < j < post.rooms@.len() implies (
                #[trigger] post.rooms@[i]).0@ != (#[trigger] post.rooms@[j]).0@ by {
                    if j < orlen {
                        assert(pre.rooms@[i].0@ != pre.rooms@[j].0@);
                    } else {
                        if post.rooms@[i].0@ == nrid {
                            assert(pre.rooms@[i].0@ == nrid);
                            assert(pre.has_room(nrid));
                        }
                    }
                }
            }
            assert(post.rooms_nonempty());
            assert(post.rooms_members_distinct()) by {
                assert forall|i: int, j: int, k: int|
                    0 <= i < post.rooms@.len() && 0 <= j < k < (
                #[trigger] post.rooms@[i]).1@.len() implies (#[trigger] post.rooms@[i].1@[j])@ != (
                #[trigger] post.rooms@[i].1@[k])@ by {
                    if i < orlen {
                        assert(pre.rooms@[i].1@[j]@ != pre.rooms@[i].1@[k]@);
                    }
                }
            }
            assert(post.members_sound()) by {
                assert forall|i: int, j: int|
                    0 <= i < post.rooms@.len() && 0 <= j < (
                #[trigger] post.rooms@[i]).1@.len() implies post.has_session(
                    #[trigger] post.rooms@[i].1@[j]@,
                ) && post.session_conn(post.rooms@[i].1@[j]@).spec_room_id()
                    == post.rooms@[i].0@ by {
                    if i < orlen {
                        assert(pre.rooms@[i].1@[j]@ == post.rooms@[i].1@[j]@);
                        assert(pre.has_session(pre.rooms@[i].1@[j]@));
                    } else {
                        assert(post.rooms@[i].1@[j] == sid);
                        assert(post.session_conn(nsid) == data.conn);
                    }
                }
            }
            assert forall|rm: Seq<char>| post.has_room(rm) <==> pre.has_room(rm) || rm
                == nrid by {
                if post.has_room(rm) && rm != nrid {
                    let i = post.room_index(rm);
                    assert(i < orlen);
                    assert(pre.rooms@[i].0@ == rm);
                    assert(pre.has_room(rm));
                }
                if pre.has_room(rm) {
                    let i = pre.room_index(rm);
                    assert(post.rooms@[i].0@ == rm);
                    assert(post.has_room(rm));
                }
                if rm == nrid {
                    assert(post.rooms@[orlen].0@ == rm);
                    assert(post.has_room(rm));
                }
            }
            assert forall|rm: Seq<char>, s: Seq<char>| post.room_has(rm, s) <==> pre.room_has(
                rm,
                s,
            ) || (rm == nrid && s == nsid) by {
                Self::lemma_member_seqs_new_room(pre, post, rm, orlen, sid);
            }
        }

        // Every session, the new one included, is enrolled in its room.
        assert(post.sessions_enrolled()) by {
            assert forall|k: int| 0 <= k < post.sessions@.len() implies post.room_has(
                (#[trigger] post.sessions@[k]).1.spec_room_id(),
                post.sessions@[k].0@,
            ) by {
                if k < oslen {
                    assert(pre.room_has(
                        pre.sessions@[k].1.spec_room_id(),
                        pre.sessions@[k].0@,
                    ));
                    assert(post.sessions@[k] == pre.sessions@[k]);
                } else {
                    assert(post.sessions@[k].1 == data.conn && post.sessions@[k].0@ == nsid);
                    assert(post.room_has(nrid, nsid));
                }
            }
        }
    }

    /// The number of failed outcomes in a per-member delivery report.
    pub open spec fn count_failures(s: Seq<bool>) -> nat
        decreases s.len(),
    {
        if s.len() == 0 {
            0
        } else {
            Self::count_failures(s.drop_last()) + if s.last() {
                0nat
            } else {
                1nat
            }
        }
    }

    /// Counts the failed sends of a room broadcast: a broadcast is
    /// best-effort, one member's dead channel never aborts delivery to the
    /// others, and each failure is reported rather than raised.
    pub fn broadcast_report(outcomes: &Vec<bool>) -> (n: usize)
        ensures
            n == Self::count_failures(outcomes@),
    {
        let mut n: usize = 0;
        let len = outcomes.len();
        for i in 0..len
            invariant
                len == outcomes@.len(),
                n == Self::count_failures(outcomes@.subrange(0, i as int)),
                n <= i,
        {
            if !outcomes[i] {
                n = n + 1;
            }
            proof {
                assert(outcomes@.subrange(0, i + 1).drop_last() =~= outcomes@.subrange(
                    0,
                    i as int,
                ));
                assert(outcomes@.subrange(0, i + 1).last() == outcomes@[i as int]);
            }
        }
        proof {
            assert(outcomes@.subrange(0, outcomes@.len() as int) =~= outcomes@);
        }
        n
    }

    /// Membership before and after appending one member to an existing room.
    proof fn lemma_member_seqs(
        pre: Self,
        post: Self,
        rm: Seq<char>,
        ri: int,
        oldm: Seq<String>,
        sid: String,
    )
        requires
            pre.rooms_keys_distinct(),
            post.rooms_keys_distinct(),
            0 <= ri < pre.rooms@.len(),
            post.rooms@.len() == pre.rooms@.len(),
            forall|i: int| 0 <= i < post.rooms@.len() && i != ri ==> post.rooms@[i] == pre.rooms@[i],
            post.rooms@[ri].0 == pre.rooms@[ri].0,
            pre.rooms@[ri].1@ == oldm,
            post.rooms@[ri].1@ == oldm.push(sid),
        ensures
            forall|s: Seq<char>|
                post.room_has(rm, s) <==> pre.room_has(rm, s) || (rm == pre.rooms@[ri].0@ && s
                    == sid@),
    {
        let nrid = pre.rooms@[ri].0@;
        assert forall|s: Seq<char>| post.room_has(rm, s) <==> pre.room_has(rm, s) || (rm == nrid
            && s == sid@) by {
            if post.has_room(rm) {
                let i = post.room_index(rm);
                assert(pre.rooms@[i].0@ == rm);
                pre.lemma_room_index_unique(rm, i);
                if i == ri {
                    assert(post.members_of(rm) =~= pre.members_of(rm).push(sid@)) by {
                        assert(post.rooms@[i].1@ == oldm.push(sid));
                        assert(post.rooms@[i].1@.map_values(|m: String| m@) =~= oldm.map_values(
                            |m: String| m@,
                        ).push(sid@));
                    }
                    if post.room_has(rm, s) {
                        if s != sid@ || pre.members_of(rm).contains(s) {
                            let j = choose|j: int|
                                0 <= j < post.members_of(rm).len() && post.members_of(rm)[j] == s;
                            if j < oldm.len() {
                                assert(pre.members_of(rm)[j] == s);
                                assert(pre.room_has(rm, s));
                            } else {
                                assert(s == sid@);
                            }
                        }
                    }
                    if pre.room_has(rm, s) {
                        let j = choose|j: int|
                            0 <= j < pre.members_of(rm).len() && pre.members_of(rm)[j] == s;
                        assert(post.members_of(rm)[j] == s);
                        assert(post.room_has(rm, s));
                    }
                    if rm == nrid && s == sid@ {
                        assert(post.members_of(rm)[oldm.len() as int] == sid@);
                        assert(post.room_has(rm, s));
                    }
                } else {
                    assert(post.members_of(rm) == pre.members_of(rm)) by {
                        assert(post.rooms@[i] == pre.rooms@[i]);
                    }
                    assert(rm != nrid) by {
                        if rm == nrid {
                            post.lemma_room_index_unique(rm, ri);
                        }
                    }
                }
            } else {
                assert(!pre.has_room(rm)) by {
                    if pre.has_room(rm) {
                        let i = pre.room_index(rm);
                        assert(post.rooms@[i].0@ == rm);
                        assert(post.has_room(rm));
                    }
                }
                assert(rm != nrid) by {
                    assert(post.rooms@[ri].0@ == nrid);
                    if rm == nrid {
                        assert(post.has_room(rm));
                    }
                }
            }
        }
    }

    /// Membership before and after appending a fresh one-member room.
    proof fn lemma_member_seqs_new_room(
        pre: Self,
        post: Self,
        rm: Seq<char>,
        orlen: int,
        sid: String,
    )
        requires
            pre.rooms_keys_distinct(),
            post.rooms_keys_distinct(),
            orlen == pre.rooms@.len(),
            post.rooms@.len() == orlen + 1,
            forall|i: int| 0 <= i < orlen ==> post.rooms@[i] == pre.rooms@[i],
            post.rooms@[orlen].1@.map_values(|m: String| m@) =~= seq![sid@],
            !pre.has_room(post.rooms@[orlen].0@),
        ensures
            forall|s: Seq<char>|
                post.room_has(rm, s) <==> pre.room_has(rm, s) || (rm == post.rooms@[orlen].0@ && s
                    == sid@),
    {
        let nrid = post.rooms@[orlen].0@;
        assert forall|s: Seq<char>| post.room_has(rm, s) <==> pre.room_has(rm, s) || (rm == nrid
            && s == sid@) by {
            if post.has_room(rm) {
                let i = post.room_index(rm);
                if i < orlen {
                    assert(pre.rooms@[i].0@ == rm);
                    pre.lemma_room_index_unique(rm, i);
                    assert(post.members_of(rm) == pre.members_of(rm)) by {
                        assert(post.rooms@[i] == pre.rooms@[i]);
                    }
                    assert(rm != nrid) by {
                        if rm == nrid {
                            post.lemma_room_index_unique(rm, orlen);
                        }
                    }
                } else {
                    assert(rm == nrid);
                    assert(!pre.has_room(rm));
                    assert(post.members_of(rm) =~= seq![sid@]);
                    if post.room_has(rm, s) {
                        assert(post.members_of(rm).contains(s));
                        let j = choose|j: int|
                            0 <= j < post.members_of(rm).len() && post.members_of(rm)[j] == s;
                        assert(s == sid@);
                    }
                    if rm == nrid && s == sid@ {
                        assert(post.members_of(rm)[0] == s);
                        assert(post.room_has(rm, s));
                    }
                }
            } else {
                assert(!pre.has_room(rm)) by {
                    if pre.has_room(rm) {
                        let i = pre.room_index(rm);
                        assert(post.rooms@[i].0@ == rm);
                    }
                }
                assert(rm != nrid) by {
                    if rm == nrid {
                        assert(post.rooms@[orlen].0@ == rm);
                    }
                }
            }
        }
    }
}

impl<C: Clone> Room<C> {
    /// Clones of all stored output channels, in registry order.
    pub fn get_client_conn_addr_list(&self) -> (r: Vec<C>)
        ensures
            r@.len() == self.sessions@.len(),
            forall|i: int|
                0 <= i < r@.len() ==> cloned::<C>(self.sessions@[i].2, #[trigger] r@[i]),
    {
        let mut out: Vec<C> = Vec::new();
        let n = self.sessions.len();
        for i in 0..n
            invariant
                n == self.sessions@.len(),
                out@.len() == i,
                forall|j: int|
                    0 <= j < i ==> cloned::<C>(self.sessions@[j].2, #[trigger] out@[j]),
        {
            out.push(self.sessions[i].2.clone());
        }
        out
    }

    /// The delivery targets of a room broadcast: every current member of the
    /// room, each with a clone of its output channel, in membership order.
    /// An unknown room has no targets.
    ///
    /// The caller performs the sends; a failed send to one member must not
    /// abort delivery to the others (see [`Room::broadcast_report`]).
    pub fn broadcast_to_room(&self, room_id: &String) -> (r: Vec<(String, C)>)
        requires
            self.wf(),
        ensures
            self.has_room(room_id@) ==> {
                &&& r@.len() == self.members_of(room_id@).len()
                &&& forall|k: int|
                    0 <= k < r@.len() ==> (#[trigger] r@[k]).0@ == self.members_of(room_id@)[k]
                        && cloned::<C>(self.session_chan(self.members_of(room_id@)[k]), r@[k].1)
            },
            !self.has_room(room_id@) ==> r@.len() == 0,
    {
        let mut out: Vec<(String, C)> = Vec::new();
        let ro = self.find_room(room_id);
        match ro {
            None => out,
            Some(ri) => {
                proof {
                    self.lemma_room_index_unique(room_id@, ri as int);
                }
                let n = self.rooms[ri].1.len();
                for j in 0..n
                    invariant
                        self.wf(),
                        ri < self.rooms@.len(),
                        self.rooms@[ri as int].0@ == room_id@,
                        self.room_index(room_id@) == ri,
                        n == self.rooms@[ri as int].1@.len(),
                        out@.len() == j,
                        forall|k: int|
                            0 <= k < j ==> (#[trigger] out@[k]).0@ == self.members_of(room_id@)[k]
                                && cloned::<C>(
                                self.session_chan(self.members_of(room_id@)[k]),
                                out@[k].1,
                            ),
                {
                    let member = &self.rooms[ri].1[j];
                    proof {
                        assert(self.has_session(self.rooms@[ri as int].1@[j as int]@));
                    }
                    let so = self.find_session(member);
                    proof {
                        assert(so is Some);
                    }
                    let si = so.unwrap();
                    proof {
                        self.lemma_session_index_unique(member@, si as int);
                        assert(self.members_of(room_id@)[j as int] == member@);
                    }
                    out.push((member.clone(), self.sessions[si].2.clone()));
                }
                out
            },
        }
    }
}

} // verus!
