//! Session store: a keyed mapping from session id to session.
//!
//! The store itself is sequential; the surrounding application serializes
//! all mutation of one store behind a lock and applies every append as an
//! atomic operation against the live entry, never as a clone-mutate-writeback
//! of a whole session. [`append_message`] is that atomic operation, and
//! [`lemma_append_keeps_both`] states why it cannot lose concurrent appends:
//! two appends against the live entry compose, so the final history holds
//! both messages whichever order the lock grants.

use vstd::prelude::*;
use vstd::pervasive::VecAdditionalExecFns;

use crate::session::{ChatMessage, MessageView, Session, SessionView};

verus! {

/// Keyed storage for every user's conversation state.
#[derive(Debug)]
pub struct SessionManager {
    sessions: Vec<Session>,
}

/// The map a session list denotes: each session under its id, later
/// duplicates (which a well-formed store never holds) winning.
pub open spec fn seq_contents(s: Seq<Session>) -> Map<u128, SessionView>
    decreases s.len(),
{
    if s.len() == 0 {
        Map::empty()
    } else {
        seq_contents(s.drop_last()).insert(s.last().id, s.last()@)
    }
}

/// No two stored sessions share an id.
pub open spec fn unique_ids(s: Seq<Session>) -> bool {
    forall|i: int, j: int| 0 <= i < j < s.len() ==> s[i].id != s[j].id
}

/// An id is in the denoted map exactly when some stored session carries it.
proof fn lemma_contents_dom(s: Seq<Session>, id: u128)
    ensures
        seq_contents(s).contains_key(id) <==> exists|i: int|
            0 <= i < s.len() && s[i].id == id,
    decreases s.len(),
{
    if s.len() > 0 {
        lemma_contents_dom(s.drop_last(), id);
        if s.last().id == id {
            assert(s[s.len() - 1].id == id);
        } else {
            if seq_contents(s).contains_key(id) {
                let i = choose|i: int| 0 <= i < s.drop_last().len() && s.drop_last()[i].id == id;
                assert(s[i].id == id);
            }
            if exists|i: int| 0 <= i < s.len() && s[i].id == id {
                let i = choose|i: int| 0 <= i < s.len() && s[i].id == id;
                assert(s.drop_last()[i].id == id);
            }
        }
    }
}

/// In a well-formed store each session is the one its id denotes.
proof fn lemma_contents_at(s: Seq<Session>, i: int)
    requires
        unique_ids(s),
        0 <= i < s.len(),
    ensures
        seq_contents(s).contains_key(s[i].id),
        seq_contents(s)[s[i].id] == s[i]@,
    decreases s.len(),
{
    if i == s.len() - 1 {
    } else {
        assert(unique_ids(s.drop_last()));
        assert(s.drop_last()[i] == s[i]);
        lemma_contents_at(s.drop_last(), i);
        assert(s.last().id != s[i].id);
    }
}

/// A well-formed store denotes as many entries as it holds sessions.
proof fn lemma_contents_len(s: Seq<Session>)
    requires
        unique_ids(s),
    ensures
        seq_contents(s).dom().finite(),
        seq_contents(s).dom().len() == s.len(),
    decreases s.len(),
{
    if s.len() > 0 {
        assert(unique_ids(s.drop_last()));
        lemma_contents_len(s.drop_last());
        lemma_contents_dom(s.drop_last(), s.last().id);
        assert(forall|i: int| 0 <= i < s.drop_last().len() ==> s[i].id != s.last().id);
        assert(!seq_contents(s.drop_last()).contains_key(s.last().id));
        vstd::set::axiom_set_insert_finite(seq_contents(s.drop_last()).dom(), s.last().id);
        vstd::set::axiom_set_insert_len(seq_contents(s.drop_last()).dom(), s.last().id);
        assert(seq_contents(s).dom() =~= seq_contents(s.drop_last()).dom().insert(s.last().id));
    }
}

/// Replacing the session at `i` by one with the same id updates exactly that
/// entry of the denoted map.
proof fn lemma_contents_update(s: Seq<Session>, i: int, v: Session)
    requires
        unique_ids(s),
        0 <= i < s.len(),
        v.id == s[i].id,
    ensures
        seq_contents(s.update(i, v)) == seq_contents(s).insert(v.id, v@),
        unique_ids(s.update(i, v)),
    decreases s.len(),
{
    let su = s.update(i, v);
    assert(unique_ids(su));
    if i == s.len() - 1 {
        assert(su.drop_last() =~= s.drop_last());
        assert(su.last() == v);
        assert(seq_contents(su) =~= seq_contents(s).insert(v.id, v@));
    } else {
        assert(su.drop_last() =~= s.drop_last().update(i, v));
        assert(unique_ids(s.drop_last()));
        assert(s.drop_last()[i] == s[i]);
        lemma_contents_update(s.drop_last(), i, v);
        assert(su.last() == s.last());
        assert(s.last().id != v.id);
        assert(seq_contents(su) =~= seq_contents(s).insert(v.id, v@));
    }
}

impl SessionManager {
    /// The mapping this store denotes.
    pub closed spec fn contents(&self) -> Map<u128, SessionView> {
        seq_contents(self.sessions@)
    }

    /// Well-formedness: ids are unique, so each id denotes one session.
    pub closed spec fn wf(&self) -> bool {
        unique_ids(self.sessions@)
    }

    fn find_index(&self, id: u128) -> (r: Option<usize>)
        ensures
            r matches Some(i) ==> i < self.sessions@.len() && self.sessions@[i as int].id == id,
            r is None ==> forall|k: int|
                0 <= k < self.sessions@.len() ==> self.sessions@[k].id != id,
    {
        let mut i: usize = 0;
        while i < self.sessions.len()
            invariant
                i <= self.sessions@.len(),
                forall|k: int| 0 <= k < i ==> self.sessions@[k].id != id,
            decreases self.sessions@.len() - i,
        {
            if self.sessions[i].id == id {
                return Some(i);
            }
            i += 1;
        }
        None
    }
}

/// An empty session store.
pub fn create_session_manager() -> (m: SessionManager)
    ensures
        m.wf(),
        m.contents() == Map::<u128, SessionView>::empty(),
{
    SessionManager { sessions: Vec::new() }
}

/// Returns a copy of the session stored under `id`, creating an empty one
/// first when the id is new. The store afterwards holds exactly the returned
/// session under `id` and is otherwise unchanged.
pub fn get_or_create_session(manager: &mut SessionManager, id: u128) -> (s: Session)
    requires
        old(manager).wf(),
    ensures
        final(manager).wf(),
        s.id == id,
        s@ == final(manager).contents()[id],
        final(manager).contents() == old(manager).contents().insert(id, s@),
        old(manager).contents().contains_key(id) ==> s@ == old(manager).contents()[id],
        !old(manager).contents().contains_key(id) ==> s@.messages.len() == 0,
{
    let found = manager.find_index(id);
    match found {
        Some(i) => {
            let s = manager.sessions[i].clone();
            proof {
                lemma_contents_at(manager.sessions@, i as int);
                lemma_contents_dom(manager.sessions@, id);
                assert(manager.contents().insert(id, s@) =~= manager.contents());
            }
            s
        },
        None => {
            let fresh = Session::new(id);
            let s = fresh.clone();
            let ghost before = manager.sessions@;
            manager.sessions.push(fresh);
            proof {
                lemma_contents_dom(before, id);
                assert(manager.sessions@.drop_last() =~= before);
                assert(manager.contents() == seq_contents(before).insert(id, s@));
                assert(unique_ids(manager.sessions@));
            }
            s
        },
    }
}

/// Stores `session` under its id, overwriting any previous session there.
pub fn update_session(manager: &mut SessionManager, session: Session)
    requires
        old(manager).wf(),
    ensures
        final(manager).wf(),
        final(manager).contents() == old(manager).contents().insert(session.id, session@),
{
    let ghost sv = session@;
    let ghost sid = session.id;
    let found = manager.find_index(session.id);
    match found {
        Some(i) => {
            proof {
                lemma_contents_update(manager.sessions@, i as int, session);
            }
            manager.sessions.set(i, session);
        },
        None => {
            let ghost before = manager.sessions@;
            manager.sessions.push(session);
            proof {
                assert(manager.sessions@.drop_last() =~= before);
                assert(manager.contents() == seq_contents(before).insert(sid, sv));
                assert(unique_ids(manager.sessions@));
            }
        },
    }
}

/// What one clear leaves of a store: the entry under `id`, if present, has
/// an empty message list and keeps its identity and creation time; every
/// other entry is untouched, and a store without the id is unchanged.
pub open spec fn spec_clear_result(
    before: Map<u128, SessionView>,
    after: Map<u128, SessionView>,
    id: u128,
) -> bool {
    &&& after.dom() == before.dom()
    &&& (before.contains_key(id) ==> {
        &&& after[id].messages.len() == 0
        &&& after[id].id == before[id].id
        &&& after[id].created_at == before[id].created_at
    })
    &&& forall|other: u128|
        other != id && before.contains_key(other) ==> after[other] == before[other]
    &&& (!before.contains_key(id) ==> after == before)
}

/// Clearing a session twice in succession is idempotent: the stored message
/// list under `id` is empty after the first clear and still empty after the
/// second, and the second clear disturbs no other entry either.
pub proof fn lemma_clear_idempotent(
    c0: Map<u128, SessionView>,
    c1: Map<u128, SessionView>,
    c2: Map<u128, SessionView>,
    id: u128,
)
    requires
        spec_clear_result(c0, c1, id),
        spec_clear_result(c1, c2, id),
    ensures
        c0.contains_key(id) ==> c1[id].messages.len() == 0,
        c0.contains_key(id) ==> c2[id].messages.len() == 0,
        c2.dom() == c0.dom(),
        forall|other: u128| other != id && c0.contains_key(other) ==> c2[other] == c0[other],
{
}

/// Empties the message list of the session stored under `id`, leaving its
/// identity and creation time alone; a store without that id is unchanged.
pub fn clear_session(manager: &mut SessionManager, id: u128)
    requires
        old(manager).wf(),
    ensures
        final(manager).wf(),
        spec_clear_result(old(manager).contents(), final(manager).contents(), id),
{
    let found = manager.find_index(id);
    match found {
        Some(i) => {
            let mut s = manager.sessions[i].clone();
            proof {
                lemma_contents_at(manager.sessions@, i as int);
                lemma_contents_dom(manager.sessions@, id);
            }
            s.clear();
            proof {
                lemma_contents_update(manager.sessions@, i as int, s);
            }
            manager.sessions.set(i, s);
            proof {
                assert(manager.contents().dom() =~= old(manager).contents().dom());
            }
        },
        None => {
            proof {
                lemma_contents_dom(manager.sessions@, id);
            }
        },
    }
}

/// How many sessions the store holds.
pub fn session_count(manager: &SessionManager) -> (n: usize)
    requires
        manager.wf(),
    ensures
        n == manager.contents().dom().len(),
{
    proof {
        lemma_contents_len(manager.sessions@);
    }
    manager.sessions.len()
}

/// Atomically appends one message to the history of the session stored under
/// `id`, against the live entry. Returns whether the id was present; a store
/// without the id is unchanged.
pub fn append_message(manager: &mut SessionManager, id: u128, message: ChatMessage) -> (r: bool)
    requires
        old(manager).wf(),
    ensures
        final(manager).wf(),
        r == old(manager).contents().contains_key(id),
        final(manager).contents().dom() == old(manager).contents().dom(),
        r ==> {
            &&& final(manager).contents()[id].messages == old(
                manager,
            ).contents()[id].messages.push(message@)
            &&& final(manager).contents()[id].id == old(manager).contents()[id].id
            &&& final(manager).contents()[id].created_at == old(
                manager,
            ).contents()[id].created_at
        },
        forall|other: u128|
            other != id && old(manager).contents().contains_key(other)
                ==> final(manager).contents()[other] == old(manager).contents()[other],
        !r ==> final(manager).contents() == old(manager).contents(),
{
    let found = manager.find_index(id);
    match found {
        Some(i) => {
            let mut s = manager.sessions[i].clone();
            proof {
                lemma_contents_at(manager.sessions@, i as int);
                lemma_contents_dom(manager.sessions@, id);
            }
            s.add_message(message);
            proof {
                lemma_contents_update(manager.sessions@, i as int, s);
            }
            manager.sessions.set(i, s);
            proof {
                assert(manager.contents().dom() =~= old(manager).contents().dom());
            }
            true
        },
        None => {
            proof {
                lemma_contents_dom(manager.sessions@, id);
            }
            false
        },
    }
}

/// The denotation of one atomic append: the entry under `id` grows by one
/// message, every other entry is untouched.
pub open spec fn spec_append(
    c: Map<u128, SessionView>,
    id: u128,
    m: MessageView,
) -> Map<u128, SessionView> {
    if c.contains_key(id) {
        c.insert(
            id,
            SessionView {
                id: c[id].id,
                messages: c[id].messages.push(m),
                created_at: c[id].created_at,
                last_activity: c[id].last_activity,
            },
        )
    } else {
        c
    }
}

/// Two appends against the live entry never lose each other: after appending
/// `m1` and then `m2` to the session stored under `id`, the stored history
/// holds the original messages followed by `m1` and then `m2` — both appends
/// survive, whichever order the store's lock granted them.
pub proof fn lemma_append_keeps_both(
    c: Map<u128, SessionView>,
    id: u128,
    m1: MessageView,
    m2: MessageView,
)
    requires
        c.contains_key(id),
    ensures
        spec_append(spec_append(c, id, m1), id, m2)[id].messages == c[id].messages.push(m1).push(
            m2,
        ),
        spec_append(spec_append(c, id, m1), id, m2)[id].messages.contains(m1),
        spec_append(spec_append(c, id, m1), id, m2)[id].messages.contains(m2),
{
    let after = spec_append(spec_append(c, id, m1), id, m2)[id].messages;
    assert(after == c[id].messages.push(m1).push(m2));
    assert(after.contains(m1)) by {
        assert(after[after.len() - 2] == m1);
    }
    assert(after.contains(m2)) by {
        assert(after[after.len() - 1] == m2);
    }
}

} // verus!
