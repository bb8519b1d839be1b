//! Resumable gateway sessions.
//!
//! Each session numbers the events delivered to its user, keeps the last
//! [`BUFFER_CAP`] of them for replay, and survives a dropped socket for a grace
//! window. A RESUME is accepted only when the buffer still covers everything after
//! the client's last sequence number, so an accepted resume never loses an event.
//! The socket, timers and event bus live with the caller; this module decides.

use vstd::prelude::*;
use std::collections::HashMap;
use std::collections::VecDeque;

verus! {

broadcast use vstd::std_specs::hash::group_hash_axioms;

/// Largest number of events kept for replay in one session.
pub const BUFFER_CAP: usize = 512;

/// How long a detached session stays resumable, in milliseconds.
pub const GRACE_MS: i64 = 60_000;

/// A numbered event as it was sent (its serialized frame).
pub struct BufferedFrame {
    pub seq: u64,
    pub text: String,
}

/// Answer to an attach request.
pub struct AttachAck {
    /// The attach (and its replay) is possible.
    pub ok: bool,
    /// Sequence number of the last event of the session.
    pub current_seq: u64,
    /// The frames to send first, in order.
    pub replay: Vec<String>,
}

/// State of one session.
pub struct SessionState {
    seq: u64,
    buffer: VecDeque<BufferedFrame>,
    evicted_through: u64,
    attached: bool,
    detached_since: Option<i64>,
}

/// Texts of the frames of `frames` numbered above `after`, in order.
pub open spec fn texts_after(frames: Seq<BufferedFrame>, after: u64) -> Seq<Seq<char>>
    decreases frames.len(),
{
    if frames.len() == 0 {
        Seq::empty()
    } else {
        let rest = texts_after(frames.drop_last(), after);
        if frames.last().seq > after {
            rest.push(frames.last().text@)
        } else {
            rest
        }
    }
}

/// Views of a sequence of strings.
pub open spec fn views(v: Seq<String>) -> Seq<Seq<char>> {
    v.map_values(|s: String| s@)
}

impl SessionState {
    /// Sequence number of the last event numbered by the session.
    pub closed spec fn seq_spec(&self) -> u64 {
        self.seq
    }

    /// The frames kept for replay, oldest first.
    pub closed spec fn frames(&self) -> Seq<BufferedFrame> {
        self.buffer@
    }

    /// Highest sequence number dropped from the buffer (`0` when none was).
    pub closed spec fn evicted_through_spec(&self) -> u64 {
        self.evicted_through
    }

    /// A socket is attached.
    pub closed spec fn attached_spec(&self) -> bool {
        self.attached
    }

    /// Since when no socket is attached (`None` while one is).
    pub closed spec fn detached_since_spec(&self) -> Option<i64> {
        self.detached_since
    }

    /// The buffer holds the consecutive frames `evicted_through + 1 ..= seq`, at most
    /// [`BUFFER_CAP`] of them, and a session is attached exactly when it is not detached.
    pub closed spec fn wf(&self) -> bool {
        &&& self.buffer@.len() <= BUFFER_CAP
        &&& self.evicted_through + self.buffer@.len() == self.seq
        &&& forall|i: int|
            0 <= i < self.buffer@.len() ==> #[trigger] self.buffer@[i].seq == self.evicted_through
                + 1 + i
        &&& self.attached <==> self.detached_since is None
    }

    /// A new session: nothing numbered yet, no socket attached since `now_ms`.
    pub fn new(now_ms: i64) -> (s: SessionState)
        ensures
            s.wf(),
            s.seq_spec() == 0,
            s.frames().len() == 0,
            s.evicted_through_spec() == 0,
            !s.attached_spec(),
            s.detached_since_spec() == Some(now_ms),
    {
        SessionState {
            seq: 0,
            buffer: VecDeque::new(),
            evicted_through: 0,
            attached: false,
            detached_since: Some(now_ms),
        }
    }

    /// Sequence number of the last event numbered by the session.
    pub fn current_seq(&self) -> (r: u64)
        ensures
            r == self.seq_spec(),
    {
        self.seq
    }

    /// Sequence number that the next delivered event gets.
    pub fn next_seq(&self) -> (r: u64)
        requires
            self.seq_spec() < u64::MAX,
        ensures
            r == self.seq_spec() + 1,
    {
        self.seq + 1
    }

    /// Whether a socket is attached.
    pub fn is_attached(&self) -> (r: bool)
        ensures
            r == self.attached_spec(),
    {
        self.attached
    }

    /// (Re)attaches a socket that has seen everything up to `after_seq`.
    ///
    /// Accepted exactly when no event after `after_seq` was dropped from the buffer; the
    /// frames numbered above `after_seq` are then replayed, in order, and the session is
    /// attached. A refused attach changes nothing.
    pub fn attach(&mut self, after_seq: u64) -> (ack: AttachAck)
        requires
            old(self).wf(),
        ensures
            final(self).wf(),
            ack.ok == (after_seq >= old(self).evicted_through_spec()),
            ack.current_seq == old(self).seq_spec(),
            final(self).seq_spec() == old(self).seq_spec(),
            final(self).frames() == old(self).frames(),
            final(self).evicted_through_spec() == old(self).evicted_through_spec(),
            ack.ok ==> {
                &&& views(ack.replay@) == texts_after(old(self).frames(), after_seq)
                &&& final(self).attached_spec()
                &&& final(self).detached_since_spec() is None
            },
            !ack.ok ==> ack.replay@.len() == 0 && final(self).attached_spec()
                == old(self).attached_spec() && final(self).detached_since_spec() == old(
                self,
            ).detached_since_spec(),
    {
        if after_seq < self.evicted_through {
            return AttachAck { ok: false, current_seq: self.seq, replay: Vec::new() };
        }
        let mut replay: Vec<String> = Vec::new();
        let n = self.buffer.len();
        let mut i: usize = 0;
        while i < n
            invariant
                n == self.buffer@.len(),
                0 <= i <= n,
                views(replay@) == texts_after(self.buffer@.take(i as int), after_seq),
            decreases n - i,
        {
            let f = &self.buffer[i];
            assert(self.buffer@.take(i + 1).drop_last() == self.buffer@.take(i as int));
            if f.seq > after_seq {
                let t = f.text.clone();
                replay.push(t);
                assert(views(replay@) == views(replay@.drop_last()).push(t@));
            }
            i = i + 1;
        }
        assert(self.buffer@.take(n as int) == self.buffer@);
        self.attached = true;
        self.detached_since = None;
        AttachAck { ok: true, current_seq: self.seq, replay }
    }

    /// The socket dropped (network): the session stays resumable from `now_ms`.
    pub fn detach(&mut self, now_ms: i64)
        requires
            old(self).wf(),
        ensures
            final(self).wf(),
            !final(self).attached_spec(),
            final(self).detached_since_spec() == Some(now_ms),
            final(self).seq_spec() == old(self).seq_spec(),
            final(self).frames() == old(self).frames(),
            final(self).evicted_through_spec() == old(self).evicted_through_spec(),
    {
        self.attached = false;
        self.detached_since = Some(now_ms);
    }

    /// Numbers and keeps a delivered event whose serialized frame is `text`; answers
    /// whether it must be sent to the attached socket now.
    ///
    /// The event gets the next sequence number; when the buffer exceeds [`BUFFER_CAP`]
    /// the oldest frame is dropped and remembered as evicted.
    pub fn record(&mut self, text: String) -> (send: bool)
        requires
            old(self).wf(),
            old(self).seq_spec() < u64::MAX,
        ensures
            final(self).wf(),
            send == old(self).attached_spec(),
            final(self).seq_spec() == old(self).seq_spec() + 1,
            final(self).attached_spec() == old(self).attached_spec(),
            final(self).detached_since_spec() == old(self).detached_since_spec(),
            final(self).frames().last().seq == final(self).seq_spec(),
            final(self).frames().last().text@ == text@,
            old(self).frames().len() < BUFFER_CAP ==> {
                &&& final(self).frames().drop_last() == old(self).frames()
                &&& final(self).evicted_through_spec() == old(self).evicted_through_spec()
            },
            old(self).frames().len() == BUFFER_CAP ==> {
                &&& final(self).frames().drop_last() == old(self).frames().drop_first()
                &&& final(self).evicted_through_spec() == old(self).frames()[0].seq
            },
    {
        self.seq = self.seq + 1;
        let ghost before = self.buffer@;
        self.buffer.push_back(BufferedFrame { seq: self.seq, text });
        assert(self.buffer@.drop_last() == before);
        if self.buffer.len() > BUFFER_CAP {
            let old_front = self.buffer.pop_front();
            match old_front {
                Some(f) => {
                    self.evicted_through = f.seq;
                },
                None => {},
            }
            assert(self.buffer@.drop_last() == before.drop_first());
        }
        self.attached
    }

    /// Sending to the socket failed: the session becomes detached from `now_ms`.
    pub fn send_failed(&mut self, now_ms: i64)
        requires
            old(self).wf(),
        ensures
            final(self).wf(),
            !final(self).attached_spec(),
            final(self).detached_since_spec() == Some(now_ms),
            final(self).seq_spec() == old(self).seq_spec(),
            final(self).frames() == old(self).frames(),
            final(self).evicted_through_spec() == old(self).evicted_through_spec(),
    {
        self.detach(now_ms);
    }

    /// Whether the grace window of a detached session has run out at `now_ms`.
    pub fn expired(&self, now_ms: i64) -> (r: bool)
        ensures
            r == match self.detached_since_spec() {
                Some(since) => now_ms - since >= GRACE_MS,
                None => false,
            },
    {
        match self.detached_since {
            Some(since) => (now_ms as i128) - (since as i128) >= GRACE_MS as i128,
            None => false,
        }
    }
}

/// With consecutive numbering, the frames above `after` are exactly the last
/// `len - (after - first + 1)` frames.
proof fn lemma_texts_after_consecutive(frames: Seq<BufferedFrame>, first: int, after: int, k: int)
    requires
        forall|i: int| 0 <= i < frames.len() ==> #[trigger] frames[i].seq == first + i,
        first - 1 <= after,
        0 <= after,
        k == after - first + 1,
        0 <= k <= frames.len(),
        after <= u64::MAX,
    ensures
        texts_after(frames, after as u64) =~= frames.subrange(k, frames.len() as int).map_values(
            |f: BufferedFrame| f.text@,
        ),
    decreases frames.len(),
{
    if frames.len() == 0 {
    } else if k == frames.len() {
        lemma_texts_after_none(frames, first, after);
    } else {
        let d = frames.drop_last();
        assert forall|i: int| 0 <= i < d.len() implies #[trigger] d[i].seq == first + i by {
            assert(d[i] == frames[i]);
        }
        lemma_texts_after_consecutive(d, first, after, k);
    }
}

/// With consecutive numbering ending at or below `after`, no frame is above `after`.
proof fn lemma_texts_after_none(frames: Seq<BufferedFrame>, first: int, after: int)
    requires
        forall|i: int| 0 <= i < frames.len() ==> #[trigger] frames[i].seq == first + i,
        first + frames.len() - 1 <= after,
        0 <= after <= u64::MAX,
    ensures
        texts_after(frames, after as u64) == Seq::<Seq<char>>::empty(),
    decreases frames.len(),
{
    if frames.len() > 0 {
        let d = frames.drop_last();
        assert forall|i: int| 0 <= i < d.len() implies #[trigger] d[i].seq == first + i by {
            assert(d[i] == frames[i]);
        }
        lemma_texts_after_none(d, first, after);
    }
}

/// Resuming loses nothing and repeats nothing: a resume from `after_seq` that the session
/// accepts replays exactly the events numbered `after_seq + 1 ..= current_seq`, in order.
pub proof fn law_resume_replays_missed_events(s: SessionState, after_seq: u64)
    requires
        s.wf(),
        s.evicted_through_spec() <= after_seq <= s.seq_spec(),
    ensures
        texts_after(s.frames(), after_seq).len() == s.seq_spec() - after_seq,
        forall|i: int|
            0 <= i < s.seq_spec() - after_seq ==> {
                let f = #[trigger] s.frames()[after_seq - s.evicted_through_spec() + i];
                &&& f.seq == after_seq + 1 + i
                &&& texts_after(s.frames(), after_seq)[i] == f.text@
            },
{
    let first = s.evicted_through_spec() + 1;
    let k = after_seq - s.evicted_through_spec();
    lemma_texts_after_consecutive(s.frames(), first, after_seq as int, k);
}

/// Every recorded event gets the next sequence number, and the replay buffer never holds
/// more than [`BUFFER_CAP`] frames.
pub proof fn law_numbering_and_bound(s: SessionState)
    requires
        s.wf(),
    ensures
        s.frames().len() <= BUFFER_CAP,
        s.frames().len() > 0 ==> s.frames().last().seq == s.seq_spec(),
{
    if s.frames().len() > 0 {
        assert(s.frames()[s.frames().len() - 1].seq == s.evicted_through_spec() + 1 + (
        s.frames().len() - 1));
    }
}

/// Owners of the live sessions, by session id.
pub struct SessionOwners {
    owners: HashMap<u64, i64>,
}

impl SessionOwners {
    /// Session id to owning user.
    pub closed spec fn owners_spec(&self) -> Map<u64, i64> {
        self.owners@
    }

    pub fn new() -> (r: SessionOwners)
        ensures
            r.owners_spec() == Map::<u64, i64>::empty(),
    {
        SessionOwners { owners: HashMap::new() }
    }

    /// Registers session `session_id` as belonging to `user_id`.
    pub fn insert(&mut self, session_id: u64, user_id: i64)
        ensures
            final(self).owners_spec() == old(self).owners_spec().insert(session_id, user_id),
    {
        self.owners.insert(session_id, user_id);
    }

    /// Forgets session `session_id`.
    pub fn remove(&mut self, session_id: u64)
        ensures
            final(self).owners_spec() == old(self).owners_spec().remove(session_id),
    {
        self.owners.remove(&session_id);
    }

    /// Whether `user_id` may resume session `session_id`: it must exist and be theirs.
    pub fn may_resume(&self, session_id: u64, user_id: i64) -> (r: bool)
        ensures
            r == (self.owners_spec().contains_key(session_id) && self.owners_spec()[session_id]
                == user_id),
    {
        match self.owners.get(&session_id) {
            Some(owner) => *owner == user_id,
            None => false,
        }
    }
}

/// Isolation: a session can be resumed by the user who created it and by no one else,
/// and not at all once removed.
pub proof fn law_session_isolation(
    reg: SessionOwners,
    session_id: u64,
    owner: i64,
    other: i64,
)
    requires
        owner != other,
    ensures
        reg.owners_spec().insert(session_id, owner).contains_key(session_id)
            && reg.owners_spec().insert(session_id, owner)[session_id] == owner,
        !(reg.owners_spec().insert(session_id, owner)[session_id] == other),
        !reg.owners_spec().insert(session_id, owner).remove(session_id).contains_key(session_id),
{
}

} // verus!
