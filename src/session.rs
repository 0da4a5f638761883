//! In-flight probes and the deadline-ordered registry that tracks them.
use core::cmp::Ordering;
use vstd::prelude::*;

verus! {

/// One in-flight probe: its session id and the deadline (nanoseconds on the
/// engine's clock) after which it is reported as timed out. Sessions are
/// ordered by deadline, then by session id.
#[derive(Clone, Copy, Debug, PartialEq, Eq, Structural, Ord)]
pub struct Session {
    pub deadline: u64,
    pub sid: u64,
}

/// Whether `a` sorts strictly before `b`: by deadline, then by session id.
pub open spec fn session_lt(a: Session, b: Session) -> bool {
    a.deadline < b.deadline || (a.deadline == b.deadline && a.sid < b.sid)
}

/// The order of two sessions, by deadline, then by session id.
pub open spec fn session_cmp(a: Session, b: Session) -> Ordering {
    if session_lt(a, b) {
        Ordering::Less
    } else if a == b {
        Ordering::Equal
    } else {
        Ordering::Greater
    }
}

impl Session {
    pub fn new(sid: u64, deadline: u64) -> (r: Session)
        ensures
            r == (Session { deadline, sid }),
    {
        Session { deadline, sid }
    }

    /// Whether the deadline lies strictly before `ts`.
    pub fn is_expired(&self, ts: u64) -> (r: bool)
        ensures
            r == (self.deadline < ts),
    {
        self.deadline < ts
    }

    pub fn get_sid(&self) -> (r: u64)
        ensures
            r == self.sid,
    {
        self.sid
    }

    pub fn get_deadline(&self) -> (r: u64)
        ensures
            r == self.deadline,
    {
        self.deadline
    }
}

impl PartialOrd for Session {
    fn partial_cmp(&self, other: &Session) -> Option<Ordering> {
        if self.deadline < other.deadline {
            Some(Ordering::Less)
        } else if self.deadline > other.deadline {
            Some(Ordering::Greater)
        } else if self.sid < other.sid {
            Some(Ordering::Less)
        } else if self.sid > other.sid {
            Some(Ordering::Greater)
        } else {
            Some(Ordering::Equal)
        }
    }
}

impl vstd::std_specs::cmp::PartialOrdSpecImpl for Session {
    open spec fn obeys_partial_cmp_spec() -> bool {
        true
    }

    open spec fn partial_cmp_spec(&self, other: &Session) -> Option<Ordering> {
        Some(session_cmp(*self, *other))
    }
}

/// Whether `s` is strictly ascending in session order.
pub open spec fn sorted(s: Seq<Session>) -> bool {
    forall|i: int, j: int| 0 <= i < j < s.len() ==> session_lt(#[trigger] s[i], #[trigger] s[j])
}

/// Whether draining the entries of `s` expired as of `now` takes its first
/// `k` entries: exactly those have a deadline before `now`.
pub open spec fn drains(s: Seq<Session>, now: u64, k: int) -> bool {
    &&& 0 <= k <= s.len()
    &&& forall|i: int| 0 <= i < k ==> (#[trigger] s[i]).deadline < now
    &&& forall|i: int| k <= i < s.len() ==> (#[trigger] s[i]).deadline >= now
}

/// The session ids of `s`, in order.
pub open spec fn sids(s: Seq<Session>) -> Seq<u64> {
    s.map_values(|e: Session| e.sid)
}

/// The registry of in-flight probes, kept in ascending session order.
pub struct SessionTracker {
    entries: Vec<Session>,
}

impl View for SessionTracker {
    type V = Seq<Session>;

    closed spec fn view(&self) -> Seq<Session> {
        self.entries@
    }
}

impl SessionTracker {
    /// The ordering invariant: entries strictly ascending by (deadline, sid).
    pub open spec fn wf(&self) -> bool {
        sorted(self@)
    }

    pub fn new() -> (r: SessionTracker)
        ensures
            r.wf(),
            r@ == Seq::<Session>::empty(),
    {
        SessionTracker { entries: Vec::new() }
    }

    pub fn len(&self) -> (r: usize)
        ensures
            r == self@.len(),
    {
        self.entries.len()
    }

    /// The entry at position `i` in session order.
    pub fn get(&self, i: usize) -> (r: Session)
        requires
            i < self@.len(),
        ensures
            r == self@[i as int],
    {
        self.entries[i]
    }

    /// Whether the tracker holds exactly this entry.
    pub fn contains(&self, sid: u64, deadline: u64) -> (r: bool)
        requires
            self.wf(),
        ensures
            r == self@.contains(Session { deadline, sid }),
    {
        let target = Session { deadline, sid };
        let i = self.lower_bound(target);
        if i < self.entries.len() && self.entries[i] == target {
            assert(self@[i as int] == target);
            true
        } else {
            proof {
                if self@.contains(target) {
                    let j = choose|j: int| 0 <= j < self@.len() && self@[j] == target;
                    if j < i {
                    } else if j > i {
                        assert(session_lt(self@[i as int], self@[j]));
                    }
                }
            }
            false
        }
    }

    /// The first position whose entry does not sort before `target`.
    fn lower_bound(&self, target: Session) -> (r: usize)
        requires
            self.wf(),
        ensures
            r <= self@.len(),
            forall|j: int| 0 <= j < r ==> session_lt(#[trigger] self@[j], target),
            forall|j: int| r <= j < self@.len() ==> !session_lt(#[trigger] self@[j], target),
    {
        let mut lo: usize = 0;
        let mut hi: usize = self.entries.len();
        while lo < hi
            invariant
                lo <= hi <= self@.len(),
                sorted(self@),
                forall|j: int| 0 <= j < lo ==> session_lt(#[trigger] self@[j], target),
                forall|j: int| hi <= j < self@.len() ==> !session_lt(#[trigger] self@[j], target),
            decreases hi - lo,
        {
            let mid = lo + (hi - lo) / 2;
            let e = self.entries[mid];
            if e.deadline < target.deadline || (e.deadline == target.deadline && e.sid
                < target.sid) {
                assert forall|j: int| 0 <= j < mid + 1 implies session_lt(
                    #[trigger] self@[j],
                    target,
                ) by {
                    if j < mid {
                        assert(session_lt(self@[j], self@[mid as int]));
                    }
                }
                lo = mid + 1;
            } else {
                assert forall|j: int| mid <= j < self@.len() implies !session_lt(
                    #[trigger] self@[j],
                    target,
                ) by {
                    if j > mid {
                        assert(session_lt(self@[mid as int], self@[j]));
                    }
                }
                hi = mid;
            }
        }
        lo
    }

    /// Registers a session under `deadline`; registering an entry that is
    /// already present changes nothing.
    pub fn register(&mut self, sid: u64, deadline: u64)
        requires
            old(self).wf(),
        ensures
            final(self).wf(),
            forall|e: Session| #[trigger]
                final(self)@.contains(e) <==> (old(self)@.contains(e) || e == (Session {
                    deadline,
                    sid,
                })),
    {
        let target = Session { deadline, sid };
        let i = self.lower_bound(target);
        if i < self.entries.len() && self.entries[i] == target {
            return ;
        }
        let ghost before = self@;
        self.entries.insert(i, target);
        let ghost after = self@;
        assert(after == before.insert(i as int, target));
        assert(sorted(after)) by {
            assert forall|a: int, b: int| 0 <= a < b < after.len() implies session_lt(
                #[trigger] after[a],
                #[trigger] after[b],
            ) by {
                if b < i {
                    assert(after[a] == before[a] && after[b] == before[b]);
                } else if b == i {
                    assert(after[a] == before[a]);
                } else if a < i {
                    assert(after[a] == before[a] && after[b] == before[b - 1]);
                    assert(session_lt(before[b - 1], target) ==> false);
                    if b - 1 > i {
                        assert(session_lt(before[i as int], before[b - 1]));
                    }
                } else if a == i {
                    assert(after[b] == before[b - 1]);
                    assert(!session_lt(before[b - 1], target));
                    if b - 1 == i {
                        assert(before[b - 1] != target);
                    } else {
                        assert(session_lt(before[i as int], before[b - 1]));
                        assert(!session_lt(before[i as int], target));
                    }
                } else {
                    assert(after[a] == before[a - 1] && after[b] == before[b - 1]);
                }
            }
        }
        assert forall|e: Session| #[trigger]
            after.contains(e) <==> (before.contains(e) || e == target) by {
            if after.contains(e) {
                let j = choose|j: int| 0 <= j < after.len() && after[j] == e;
                if j < i {
                    assert(before[j] == e);
                } else if j > i {
                    assert(before[j - 1] == e);
                }
            }
            if before.contains(e) {
                let j = choose|j: int| 0 <= j < before.len() && before[j] == e;
                if j < i {
                    assert(after[j] == e);
                } else {
                    assert(after[j + 1] == e);
                }
            }
            if e == target {
                assert(after[i as int] == e);
            }
        }
    }

    /// Removes the entry registered under exactly this `(sid, deadline)`;
    /// without such an entry nothing changes.
    pub fn remove(&mut self, sid: u64, deadline: u64)
        requires
            old(self).wf(),
        ensures
            final(self).wf(),
            forall|e: Session| #[trigger]
                final(self)@.contains(e) <==> (old(self)@.contains(e) && e != (Session {
                    deadline,
                    sid,
                })),
    {
        let target = Session { deadline, sid };
        let i = self.lower_bound(target);
        if i < self.entries.len() && self.entries[i] == target {
            let ghost before = self@;
            self.entries.remove(i);
            let ghost after = self@;
            assert(after == before.remove(i as int));
            assert(sorted(after)) by {
                assert forall|a: int, b: int| 0 <= a < b < after.len() implies session_lt(
                    #[trigger] after[a],
                    #[trigger] after[b],
                ) by {
                    let a0 = if a < i { a } else { a + 1 };
                    let b0 = if b < i { b } else { b + 1 };
                    assert(after[a] == before[a0] && after[b] == before[b0]);
                    assert(session_lt(before[a0], before[b0]));
                }
            }
            assert forall|e: Session| #[trigger]
                after.contains(e) <==> (before.contains(e) && e != target) by {
                if after.contains(e) {
                    let j = choose|j: int| 0 <= j < after.len() && after[j] == e;
                    let j0 = if j < i { j } else { j + 1 };
                    assert(before[j0] == e);
                    assert(session_lt(before[j0], before[i as int]) || session_lt(before[i as int], before[j0]));
                }
                if before.contains(e) && e != target {
                    let j = choose|j: int| 0 <= j < before.len() && before[j] == e;
                    if j < i {
                        assert(after[j] == e);
                    } else {
                        assert(j != i);
                        assert(after[j - 1] == e);
                    }
                }
            }
        } else {
            proof {
                assert forall|e: Session| #[trigger]
                    self@.contains(e) <==> (self@.contains(e) && e != target) by {
                    if self@.contains(e) && e == target {
                        let j = choose|j: int| 0 <= j < self@.len() && self@[j] == target;
                        if j > i {
                            assert(session_lt(self@[i as int], self@[j]));
                        }
                    }
                }
            }
        }
    }

    /// Removes every entry whose deadline lies strictly before `now` and
    /// returns their session ids in session order; the entries left are
    /// those not expired, still in order.
    pub fn drain_expired(&mut self, now: u64) -> (r: Vec<u64>)
        requires
            old(self).wf(),
        ensures
            final(self).wf(),
            drains(old(self)@, now, r@.len() as int),
            r@ == sids(old(self)@.take(r@.len() as int)),
            final(self)@ == old(self)@.skip(r@.len() as int),
    {
        let ghost before = self@;
        let mut k: usize = 0;
        while k < self.entries.len() && self.entries[k].deadline < now
            invariant
                self@ == before,
                sorted(before),
                k <= before.len(),
                forall|i: int| 0 <= i < k ==> (#[trigger] before[i]).deadline < now,
            decreases before.len() - k,
        {
            k = k + 1;
        }
        assert forall|i: int| k <= i < before.len() implies (#[trigger] before[i]).deadline >= now by {
            if i > k {
                assert(session_lt(before[k as int], before[i]));
            }
        }
        let mut expired = self.entries.split_off(k);
        core::mem::swap(&mut self.entries, &mut expired);
        assert(expired@ == before.take(k as int));
        assert(self@ == before.skip(k as int));
        let mut r: Vec<u64> = Vec::new();
        let mut j: usize = 0;
        while j < expired.len()
            invariant
                j <= expired@.len(),
                expired@ == before.take(k as int),
                r@ == sids(expired@.take(j as int)),
            decreases expired@.len() - j,
        {
            r.push(expired[j].sid);
            j = j + 1;
            assert(r@ =~= sids(expired@.take(j as int)));
        }
        assert(expired@.take(j as int) =~= expired@);
        r
    }
}

/// The drained entries are exactly those of the tracker whose deadline lies
/// before `now`, in ascending session order, and every entry left is not
/// expired.
pub proof fn lemma_drain_exact(s: Seq<Session>, now: u64, k: int)
    requires
        sorted(s),
        drains(s, now, k),
    ensures
        forall|e: Session| #[trigger]
            s.take(k).contains(e) <==> (s.contains(e) && e.deadline < now),
        sorted(s.take(k)),
        sorted(s.skip(k)),
        forall|e: Session| #[trigger] s.skip(k).contains(e) ==> e.deadline >= now,
{
    assert forall|e: Session| #[trigger]
        s.take(k).contains(e) <==> (s.contains(e) && e.deadline < now) by {
        if s.take(k).contains(e) {
            let j = choose|j: int| 0 <= j < k && s.take(k)[j] == e;
            assert(s[j] == e);
        }
        if s.contains(e) && e.deadline < now {
            let j = choose|j: int| 0 <= j < s.len() && s[j] == e;
            assert(j < k);
            assert(s.take(k)[j] == e);
        }
    }
    assert forall|e: Session| #[trigger] s.skip(k).contains(e) implies e.deadline >= now by {
        let j = choose|j: int| 0 <= j < s.len() - k && s.skip(k)[j] == e;
        assert(s[j + k] == e);
    }
    assert forall|a: int, b: int| 0 <= a < b < s.skip(k).len() implies session_lt(
        #[trigger] s.skip(k)[a],
        #[trigger] s.skip(k)[b],
    ) by {
        assert(s.skip(k)[a] == s[a + k] && s.skip(k)[b] == s[b + k]);
    }
}

/// Draining twice with the same `now`: the second drain yields nothing.
pub proof fn lemma_drain_twice(s: Seq<Session>, now: u64, k: int, k2: int)
    requires
        drains(s, now, k),
        drains(s.skip(k), now, k2),
    ensures
        k2 == 0,
{
    if k2 > 0 {
        assert(s.skip(k)[0] == s[k]);
    }
}

} // verus!
