//! The table of open MCP sessions, each with the time of its last activity.
//!
//! Times are nanoseconds on a clock that only moves forward, as the caller
//! reads it.

use vstd::prelude::*;
use crate::text::str_eq;

verus! {

/// One open session.
pub struct SessionEntry<T> {
    pub id: String,
    pub value: T,
    pub last_activity: u64,
}

/// Open sessions by id.
pub struct SessionTable<T> {
    entries: Vec<SessionEntry<T>>,
}

/// Nanoseconds in a second.
pub const NANOS_PER_SEC: u64 = 1000000000;

/// Whole seconds from `last` to `now`; none where `now` is not later
/// (as `Instant::duration_since` saturates).
pub open spec fn elapsed_secs(now: u64, last: u64) -> nat {
    if now >= last {
        ((now - last) / (NANOS_PER_SEC as int)) as nat
    } else {
        0
    }
}

/// Whether a session last active at `last` has expired at `now`.
pub open spec fn expired(now: u64, last: u64, timeout_secs: u64) -> bool {
    elapsed_secs(now, last) > timeout_secs
}

/// The sessions of `m` that have not expired at `now`.
pub open spec fn unexpired<T>(m: Map<Seq<char>, (T, u64)>, now: u64, timeout_secs: u64) -> Map<
    Seq<char>,
    (T, u64),
> {
    m.restrict(m.dom().filter(|k: Seq<char>| !expired(now, m[k].1, timeout_secs)))
}

/// The map from ids to values and times that `entries` holds, later entries
/// taking precedence.
pub open spec fn entries_map<T>(entries: Seq<SessionEntry<T>>) -> Map<Seq<char>, (T, u64)>
    decreases entries.len(),
{
    if entries.len() == 0 {
        Map::empty()
    } else {
        entries_map(entries.drop_last()).insert(
            entries.last().id@,
            (entries.last().value, entries.last().last_activity),
        )
    }
}

/// No id occurs twice.
pub open spec fn distinct_ids<T>(entries: Seq<SessionEntry<T>>) -> bool {
    forall|i: int, j: int|
        0 <= i < entries.len() && 0 <= j < entries.len() && i != j ==> entries[i].id@ != entries[j].id@
}

proof fn lemma_map_domain<T>(entries: Seq<SessionEntry<T>>, k: Seq<char>)
    ensures
        entries_map(entries).dom().contains(k) <==> exists|i: int|
            0 <= i < entries.len() && #[trigger] entries[i].id@ == k,
    decreases entries.len(),
{
    if entries.len() > 0 {
        lemma_map_domain(entries.drop_last(), k);
        if entries_map(entries.drop_last()).dom().contains(k) {
            let i = choose|i: int| 0 <= i < entries.drop_last().len() && #[trigger] entries.drop_last()[i].id@ == k;
            assert(entries[i].id@ == k);
        }
        if exists|i: int| 0 <= i < entries.len() && #[trigger] entries[i].id@ == k {
            let i = choose|i: int| 0 <= i < entries.len() && #[trigger] entries[i].id@ == k;
            if i < entries.len() - 1 {
                assert(entries.drop_last()[i].id@ == k);
            }
        }
    }
}

proof fn lemma_map_at<T>(entries: Seq<SessionEntry<T>>, i: int)
    requires
        distinct_ids(entries),
        0 <= i < entries.len(),
    ensures
        entries_map(entries).dom().contains(entries[i].id@),
        entries_map(entries)[entries[i].id@] == (entries[i].value, entries[i].last_activity),
    decreases entries.len(),
{
    if i < entries.len() - 1 {
        let d = entries.drop_last();
        assert(d[i] == entries[i]);
        assert(distinct_ids(d));
        lemma_map_at(d, i);
        assert(entries.last().id@ != entries[i].id@);
    }
}

proof fn lemma_map_update<T>(entries: Seq<SessionEntry<T>>, i: int, e: SessionEntry<T>)
    requires
        distinct_ids(entries),
        0 <= i < entries.len(),
        e.id@ == entries[i].id@,
    ensures
        distinct_ids(entries.update(i, e)),
        entries_map(entries.update(i, e)) == entries_map(entries).insert(e.id@, (e.value, e.last_activity)),
    decreases entries.len(),
{
    let u = entries.update(i, e);
    assert(distinct_ids(u)) by {
        assert forall|a: int, b: int| 0 <= a < u.len() && 0 <= b < u.len() && a != b implies u[a].id@
            != u[b].id@ by {
            assert(entries[a].id@ != entries[b].id@);
        }
    }
    if i == entries.len() - 1 {
        assert(u.drop_last() =~= entries.drop_last());
        assert(!entries_map(entries.drop_last()).dom().contains(e.id@)) by {
            lemma_map_domain(entries.drop_last(), e.id@);
            if exists|j: int| 0 <= j < entries.drop_last().len() && #[trigger] entries.drop_last()[j].id@
                == e.id@ {
                let j = choose|j: int| 0 <= j < entries.drop_last().len() && #[trigger] entries.drop_last()[j].id@
                    == e.id@;
                assert(entries[j].id@ == entries[i].id@);
            }
        }
        assert(entries_map(u) =~= entries_map(entries).insert(e.id@, (e.value, e.last_activity)));
    } else {
        let d = entries.drop_last();
        assert(distinct_ids(d));
        lemma_map_update(d, i, e);
        assert(u.drop_last() =~= d.update(i, e));
        assert(entries.last().id@ != e.id@);
        assert(entries_map(u) =~= entries_map(entries).insert(e.id@, (e.value, e.last_activity)));
    }
}

proof fn lemma_map_remove<T>(entries: Seq<SessionEntry<T>>, i: int)
    requires
        distinct_ids(entries),
        0 <= i < entries.len(),
    ensures
        distinct_ids(entries.remove(i)),
        entries_map(entries.remove(i)) == entries_map(entries).remove(entries[i].id@),
    decreases entries.len(),
{
    let r = entries.remove(i);
    let k = entries[i].id@;
    assert(distinct_ids(r)) by {
        assert forall|a: int, b: int| 0 <= a < r.len() && 0 <= b < r.len() && a != b implies r[a].id@
            != r[b].id@ by {
            let a2 = if a < i { a } else { a + 1 };
            let b2 = if b < i { b } else { b + 1 };
            assert(r[a] == entries[a2]);
            assert(r[b] == entries[b2]);
        }
    }
    if i == entries.len() - 1 {
        assert(r =~= entries.drop_last());
        assert(!entries_map(entries.drop_last()).dom().contains(k)) by {
            lemma_map_domain(entries.drop_last(), k);
            if exists|j: int| 0 <= j < entries.drop_last().len() && #[trigger] entries.drop_last()[j].id@ == k {
                let j = choose|j: int| 0 <= j < entries.drop_last().len() && #[trigger] entries.drop_last()[j].id@
                    == k;
                assert(entries[j].id@ == k);
            }
        }
        assert(entries_map(r) =~= entries_map(entries).remove(k));
    } else {
        let d = entries.drop_last();
        assert(distinct_ids(d));
        assert(d[i] == entries[i]);
        lemma_map_remove(d, i);
        assert(r.drop_last() =~= d.remove(i));
        assert(r.last() == entries.last());
        assert(entries.last().id@ != k);
        assert(entries_map(r) =~= entries_map(entries).remove(k));
    }
}

proof fn lemma_map_push<T>(entries: Seq<SessionEntry<T>>, e: SessionEntry<T>)
    requires
        distinct_ids(entries),
        !entries_map(entries).dom().contains(e.id@),
    ensures
        distinct_ids(entries.push(e)),
        entries_map(entries.push(e)) == entries_map(entries).insert(e.id@, (e.value, e.last_activity)),
{
    let p = entries.push(e);
    assert(p.drop_last() =~= entries);
    assert(distinct_ids(p)) by {
        lemma_map_domain(entries, e.id@);
        assert forall|a: int, b: int| 0 <= a < p.len() && 0 <= b < p.len() && a != b implies p[a].id@
            != p[b].id@ by {
            if a < entries.len() && b < entries.len() {
                assert(entries[a].id@ != entries[b].id@);
            } else if a < entries.len() {
                assert(entries[a].id@ != e.id@);
            } else {
                assert(entries[b].id@ != e.id@);
            }
        }
    }
}

impl<T> SessionTable<T> {
    /// The open sessions: for each id its value and last activity.
    pub closed spec fn view_map(&self) -> Map<Seq<char>, (T, u64)> {
        entries_map(self.entries@)
    }

    /// Each id is held once.
    #[verifier::type_invariant]
    spec fn wf(&self) -> bool {
        distinct_ids(self.entries@)
    }

    /// A table with no session.
    pub fn new() -> (t: SessionTable<T>)
        ensures
            t.view_map() == Map::<Seq<char>, (T, u64)>::empty(),
    {
        SessionTable { entries: Vec::new() }
    }

    /// The number of open sessions.
    pub fn len(&self) -> (r: usize)
        ensures
            r == self.view_map().len(),
    {
        proof {
            use_type_invariant(self);
            self.lemma_len();
        }
        self.entries.len()
    }

    proof fn lemma_len(&self)
        requires
            distinct_ids(self.entries@),
        ensures
            self.view_map().len() == self.entries@.len(),
            self.view_map().dom().finite(),
    {
        lemma_map_len(self.entries@);
    }

    /// Where `id` is held.
    fn find(&self, id: &str) -> (r: Option<usize>)
        ensures
            match r {
                Some(i) => i < self.entries@.len() && self.entries@[i as int].id@ == id@,
                None => !self.view_map().dom().contains(id@),
            },
    {
        let mut i: usize = 0;
        while i < self.entries.len()
            invariant
                i <= self.entries@.len(),
                forall|j: int| 0 <= j < i ==> #[trigger] self.entries@[j].id@ != id@,
            decreases self.entries@.len() - i,
        {
            if str_eq(self.entries[i].id.as_str(), id) {
                return Some(i);
            }
            i += 1;
        }
        proof {
            lemma_map_domain(self.entries@, id@);
        }
        None
    }

    /// Opens the session `id` with `value`, active at `now`; a session with
    /// the same id is replaced.
    pub fn add_session(&mut self, id: String, value: T, now: u64)
        ensures
            final(self).view_map() == old(self).view_map().insert(id@, (value, now)),
    {
        proof {
            use_type_invariant(&*self);
        }
        let e = SessionEntry { id, value, last_activity: now };
        let found = self.find(e.id.as_str());
        let mut entries: Vec<SessionEntry<T>> = Vec::new();
        std::mem::swap(&mut self.entries, &mut entries);
        match found {
            Some(i) => {
                proof {
                    lemma_map_update(entries@, i as int, e);
                }
                entries.set(i, e);
            },
            None => {
                proof {
                    lemma_map_push(entries@, e);
                }
                entries.push(e);
            },
        }
        self.entries = entries;
    }

    /// The value of session `id`, whose last activity becomes `now`; `None`
    /// where there is no such session, and then nothing changes.
    pub fn get_session(&mut self, id: &str, now: u64) -> (r: Option<&T>)
        ensures
            old(self).view_map().dom().contains(id@) ==> {
                &&& r matches Some(v) && *v == old(self).view_map()[id@].0
                &&& final(self).view_map() == old(self).view_map().insert(
                    id@,
                    (old(self).view_map()[id@].0, now),
                )
            },
            !old(self).view_map().dom().contains(id@) ==> r is None && final(self).view_map()
                == old(self).view_map(),
    {
        proof {
            use_type_invariant(&*self);
        }
        match self.find(id) {
            Some(i) => {
                let mut entries: Vec<SessionEntry<T>> = Vec::new();
                std::mem::swap(&mut self.entries, &mut entries);
                proof {
                    lemma_map_at(entries@, i as int);
                    let old_e = entries@[i as int];
                    let e = SessionEntry { id: old_e.id, value: old_e.value, last_activity: now };
                    lemma_map_update(entries@, i as int, e);
                }
                entries[i].last_activity = now;
                proof {
                    assert(entries@ =~= old(self).entries@.update(
                        i as int,
                        SessionEntry {
                            id: old(self).entries@[i as int].id,
                            value: old(self).entries@[i as int].value,
                            last_activity: now,
                        },
                    ));
                }
                self.entries = entries;
                Some(&self.entries[i].value)
            },
            None => None,
        }
    }

    /// Closes session `id`, if it is open.
    pub fn remove_session(&mut self, id: &str)
        ensures
            final(self).view_map() == old(self).view_map().remove(id@),
    {
        proof {
            use_type_invariant(&*self);
        }
        match self.find(id) {
            Some(i) => {
                let mut entries: Vec<SessionEntry<T>> = Vec::new();
                std::mem::swap(&mut self.entries, &mut entries);
                proof {
                    lemma_map_remove(entries@, i as int);
                }
                entries.remove(i);
                self.entries = entries;
            },
            None => {
                proof {
                    assert(self.view_map().remove(id@) =~= self.view_map());
                }
            },
        }
    }

    /// Closes every session that has been idle for more than `timeout_secs`
    /// whole seconds at `now`, and gives how many were closed.
    pub fn cleanup_expired(&mut self, now: u64, timeout_secs: u64) -> (r: usize)
        ensures
            final(self).view_map() == unexpired(old(self).view_map(), now, timeout_secs),
            r == old(self).view_map().len() - final(self).view_map().len(),
    {
        proof {
            use_type_invariant(&*self);
        }
        let mut entries: Vec<SessionEntry<T>> = Vec::new();
        std::mem::swap(&mut self.entries, &mut entries);
        let ghost m0 = entries_map(entries@);
        let ghost keep = m0.dom().filter(|k: Seq<char>| !expired(now, m0[k].1, timeout_secs));
        let n0: usize = entries.len();
        let mut removed: usize = 0;
        let mut i: usize = 0;
        proof {
            lemma_map_len(entries@);
        }
        while i < entries.len()
            invariant
                distinct_ids(entries@),
                i <= entries@.len(),
                removed + entries@.len() == n0,
                m0.len() == n0,
                forall|j: int| 0 <= j < i ==> !expired(now, #[trigger] entries@[j].last_activity, timeout_secs),
                entries_map(entries@).restrict(keep) == m0.restrict(keep),
                forall|k: Seq<char>| #[trigger] entries_map(entries@).dom().contains(k) ==> m0.dom().contains(k)
                    && entries_map(entries@)[k] == m0[k],
                keep == m0.dom().filter(|k: Seq<char>| !expired(now, m0[k].1, timeout_secs)),
            decreases entries@.len() - i,
        {
            let last = entries[i].last_activity;
            let gone = if now >= last {
                (now - last) / NANOS_PER_SEC > timeout_secs
            } else {
                false
            };
            if gone {
                proof {
                    let k = entries@[i as int].id@;
                    lemma_map_at(entries@, i as int);
                    lemma_map_remove(entries@, i as int);
                    assert(!keep.contains(k));
                    assert(entries_map(entries@).remove(k).restrict(keep) =~= entries_map(entries@).restrict(keep));
                }
                let ghost prev = entries@;
                entries.remove(i);
                removed = removed + 1;
                proof {
                    assert forall|j: int| 0 <= j < i implies !expired(
                        now,
                        #[trigger] entries@[j].last_activity,
                        timeout_secs,
                    ) by {
                        assert(entries@[j] == prev[j]);
                    }
                }
            } else {
                i += 1;
            }
        }
        proof {
            assert forall|k: Seq<char>| #[trigger] entries_map(entries@).dom().contains(k) implies keep.contains(k) by {
                lemma_map_domain(entries@, k);
                let j = choose|j: int| 0 <= j < entries@.len() && #[trigger] entries@[j].id@ == k;
                lemma_map_at(entries@, j);
            }
            assert(entries_map(entries@) =~= m0.restrict(keep)) by {
                assert forall|k: Seq<char>| #[trigger] m0.restrict(keep).dom().contains(k) implies entries_map(entries@).dom().contains(k) by {
                    if !entries_map(entries@).dom().contains(k) {
                        assert(!entries_map(entries@).restrict(keep).dom().contains(k));
                        assert(m0.restrict(keep).dom().contains(k));
                    }
                }
            }
            lemma_map_len(entries@);
        }
        self.entries = entries;
        removed
    }
}

/// A session that was added is found with its value; once removed it is not
/// found; a cleanup keeps it, with its value, exactly while it has not been
/// idle for more than the timeout.
pub proof fn lemma_session_lifecycle<T>(
    m: Map<Seq<char>, (T, u64)>,
    id: Seq<char>,
    value: T,
    added: u64,
    now: u64,
    timeout_secs: u64,
)
    ensures
        m.insert(id, (value, added)).dom().contains(id),
        m.insert(id, (value, added))[id].0 == value,
        !m.insert(id, (value, added)).remove(id).dom().contains(id),
        unexpired(m.insert(id, (value, added)), now, timeout_secs).dom().contains(id) <==> !expired(
            now,
            added,
            timeout_secs,
        ),
        !expired(now, added, timeout_secs) ==> unexpired(
            m.insert(id, (value, added)),
            now,
            timeout_secs,
        )[id] == (value, added),
{
}

/// Operations on other sessions leave session `id` as it was, and reading
/// it keeps its value: so a session that was added is found with its value
/// after any run of operations until it is itself replaced, removed or
/// cleaned up.
pub proof fn lemma_other_sessions_untouched<T>(
    m: Map<Seq<char>, (T, u64)>,
    id: Seq<char>,
    other: Seq<char>,
    entry: (T, u64),
    now: u64,
)
    requires
        other != id,
    ensures
        m.insert(other, entry).dom().contains(id) == m.dom().contains(id),
        m.remove(other).dom().contains(id) == m.dom().contains(id),
        m.dom().contains(id) ==> m.insert(other, entry)[id] == m[id] && m.remove(other)[id] == m[id],
        m.dom().contains(id) ==> m.insert(id, (m[id].0, now))[id].0 == m[id].0,
{
}

proof fn lemma_map_len<T>(entries: Seq<SessionEntry<T>>)
    requires
        distinct_ids(entries),
    ensures
        entries_map(entries).len() == entries.len(),
        entries_map(entries).dom().finite(),
    decreases entries.len(),
{
    if entries.len() > 0 {
        let d = entries.drop_last();
        assert(distinct_ids(d));
        lemma_map_len(d);
        lemma_map_domain(d, entries.last().id@);
        if entries_map(d).dom().contains(entries.last().id@) {
            let j = choose|j: int| 0 <= j < d.len() && #[trigger] d[j].id@ == entries.last().id@;
            assert(entries[j].id@ == entries[entries.len() - 1].id@);
        }
    }
}

} // verus!
