//! Server-side sessions of the inline edit flow: a generated short ID
//! maps to the full edit request and the media it applies to, so that
//! no request state needs to travel through the platform's
//! length-limited opaque fields and back.

use vstd::prelude::*;
use crate::request::EditRequest;

verus! {

/// One pending inline edit: the parsed request and the handle of the
/// media it applies to.
pub struct EditSession {
    pub request: EditRequest,
    pub media: Vec<u8>,
}

/// The first position holding the key, or -1.
pub open spec fn key_index(s: Seq<(u64, EditSession)>, k: u64) -> int
    decreases s.len(),
{
    if s.len() == 0 {
        -1
    } else if s[0].0 == k {
        0
    } else {
        let r = key_index(s.drop_first(), k);
        if r == -1 {
            -1
        } else {
            r + 1
        }
    }
}

proof fn lemma_key_index_range(s: Seq<(u64, EditSession)>, k: u64)
    ensures
        key_index(s, k) == -1 || (0 <= key_index(s, k) < s.len() && s[key_index(s, k)].0 == k),
    decreases s.len(),
{
    if s.len() > 0 && s[0].0 != k {
        lemma_key_index_range(s.drop_first(), k);
    }
}

proof fn lemma_key_index_absent(s: Seq<(u64, EditSession)>, k: u64)
    ensures
        key_index(s, k) == -1 <==> (forall|i: int| 0 <= i < s.len()
            ==> (#[trigger] s[i]).0 != k),
    decreases s.len(),
{
    if s.len() == 0 {
    } else if s[0].0 == k {
        assert(key_index(s, k) == 0);
        assert(s[0].0 == k);
    } else {
        lemma_key_index_absent(s.drop_first(), k);
        lemma_key_index_range(s.drop_first(), k);
        if key_index(s, k) == -1 {
            assert(key_index(s.drop_first(), k) == -1);
            assert forall|i: int| 0 <= i < s.len() implies (#[trigger] s[i]).0 != k by {
                if i > 0 {
                    assert(s.drop_first()[i - 1] == s[i]);
                }
            }
        } else {
            lemma_key_index_range(s, k);
            assert(s[key_index(s, k)].0 == k);
        }
    }
}

proof fn lemma_key_index_push(s: Seq<(u64, EditSession)>, p: (u64, EditSession), k: u64)
    ensures
        key_index(s, k) >= 0 ==> key_index(s.push(p), k) == key_index(s, k),
        key_index(s, k) == -1 && p.0 == k ==> key_index(s.push(p), k) == s.len(),
        key_index(s, k) == -1 && p.0 != k ==> key_index(s.push(p), k) == -1,
    decreases s.len(),
{
    let t = s.push(p);
    assert(t.len() == s.len() + 1);
    if s.len() == 0 {
        assert(t[0] == p);
        assert(t.drop_first() =~= Seq::<(u64, EditSession)>::empty());
        if p.0 == k {
            assert(key_index(t, k) == 0);
        } else {
            assert(key_index(t.drop_first(), k) == -1);
            assert(key_index(t, k) == -1);
        }
    } else {
        assert(t[0] == s[0]);
        assert(t.drop_first() =~= s.drop_first().push(p));
        lemma_key_index_push(s.drop_first(), p, k);
        lemma_key_index_range(s.drop_first(), k);
        lemma_key_index_range(t.drop_first(), k);
        if s[0].0 == k {
            assert(key_index(s, k) == 0 && key_index(t, k) == 0);
        } else {
            assert(key_index(t, k) == (if key_index(t.drop_first(), k) == -1 { -1int } else {
                key_index(t.drop_first(), k) + 1
            }));
        }
    }
}

proof fn lemma_key_index_remove(s: Seq<(u64, EditSession)>, i: int, k: u64)
    requires
        0 <= i < s.len(),
        forall|a: int, b: int| 0 <= a < b < s.len() ==> (#[trigger] s[a]).0
            != (#[trigger] s[b]).0,
    ensures
        s[i].0 == k ==> key_index(s.remove(i), k) == -1,
        s[i].0 != k && key_index(s, k) == -1 ==> key_index(s.remove(i), k) == -1,
        s[i].0 != k && key_index(s, k) >= 0 ==> key_index(s.remove(i), k) >= 0
            && s.remove(i)[key_index(s.remove(i), k)] == s[key_index(s, k)],
    decreases s.len(),
{
    lemma_key_index_range(s, k);
    let t = s.remove(i);
    assert(t.len() == s.len() - 1);
    if i == 0 {
        assert(t =~= s.drop_first());
        if s[0].0 == k {
            assert forall|j: int| 0 <= j < t.len() implies (#[trigger] t[j]).0 != k by {
                assert(t[j] == s[j + 1]);
            }
            lemma_key_index_absent(t, k);
        } else {
            lemma_key_index_range(s.drop_first(), k);
            if key_index(s, k) == -1 {
                assert(key_index(s.drop_first(), k) == -1);
            } else {
                assert(key_index(s.drop_first(), k) == key_index(s, k) - 1);
                lemma_key_index_range(s.drop_first(), k);
                assert(t[key_index(t, k)] == s.drop_first()[key_index(s, k) - 1]);
                assert(s.drop_first()[key_index(s, k) - 1] == s[key_index(s, k)]);
            }
        }
    } else {
        assert(t[0] == s[0]);
        assert(t.drop_first() =~= s.drop_first().remove(i - 1));
        assert forall|a: int, b: int| 0 <= a < b < s.drop_first().len() implies (
            #[trigger] s.drop_first()[a]).0 != (#[trigger] s.drop_first()[b]).0 by {
            assert(s.drop_first()[a] == s[a + 1]);
            assert(s.drop_first()[b] == s[b + 1]);
        }
        lemma_key_index_remove(s.drop_first(), i - 1, k);
        lemma_key_index_range(s.drop_first(), k);
        lemma_key_index_range(t.drop_first(), k);
        assert(s.drop_first()[i - 1] == s[i]);
        if s[0].0 == k {
            assert(key_index(s, k) == 0);
            assert(key_index(t, k) == 0);
            assert(t[0] == s[0]);
        } else {
            let rs = key_index(s.drop_first(), k);
            let rt = key_index(t.drop_first(), k);
            assert(key_index(s, k) == (if rs == -1 { -1int } else { rs + 1 }));
            assert(key_index(t, k) == (if rt == -1 { -1int } else { rt + 1 }));
            if s[i].0 == k {
                assert(key_index(t.drop_first(), k) == -1);
            } else if key_index(s, k) == -1 {
                assert(rs == -1);
            } else {
                assert(rs >= 0);
                lemma_key_index_range(s.drop_first(), k);
                lemma_key_index_range(t.drop_first(), k);
                assert(t.drop_first()[rt] == s.drop_first()[rs]);
                assert(t[rt + 1] == t.drop_first()[rt]);
                assert(s[rs + 1] == s.drop_first()[rs]);
            }
        }
    }
}

proof fn lemma_key_index_at(s: Seq<(u64, EditSession)>, i: int, k: u64)
    requires
        0 <= i < s.len(),
        s[i].0 == k,
        forall|j: int| 0 <= j < i ==> (#[trigger] s[j]).0 != k,
    ensures
        key_index(s, k) == i,
    decreases i,
{
    if i > 0 {
        assert forall|j: int| 0 <= j < i - 1 implies (#[trigger] s.drop_first()[j]).0 != k by {
            assert(s.drop_first()[j] == s[j + 1]);
        }
        lemma_key_index_at(s.drop_first(), i - 1, k);
    }
}

/// The pending sessions, with the next ID to hand out. IDs are never
/// reused within one store.
pub struct SessionStore {
    next_id: u64,
    entries: Vec<(u64, EditSession)>,
}

impl SessionStore {
    /// Keys are unique and below the next ID to hand out.
    pub closed spec fn wf(self) -> bool {
        &&& forall|a: int, b: int| 0 <= a < b < self.entries@.len()
            ==> (#[trigger] self.entries@[a]).0 != (#[trigger] self.entries@[b]).0
        &&& forall|i: int| 0 <= i < self.entries@.len()
            ==> (#[trigger] self.entries@[i]).0 < self.next_id
    }

    /// The next ID the store will hand out; IDs below it are spent.
    pub closed spec fn next(self) -> u64 {
        self.next_id
    }

    /// The sessions held, as a map from ID to session.
    pub closed spec fn contents(self) -> Map<u64, EditSession> {
        Map::new(
            |k: u64| key_index(self.entries@, k) >= 0,
            |k: u64| self.entries@[key_index(self.entries@, k)].1,
        )
    }

    /// An empty store.
    pub fn new() -> (r: SessionStore)
        ensures
            r.wf(),
            r.next() == 0,
            r.contents() == Map::<u64, EditSession>::empty(),
    {
        let r = SessionStore { next_id: 0, entries: Vec::new() };
        proof {
            assert(r.contents() =~= Map::<u64, EditSession>::empty());
        }
        r
    }

    /// The next ID the store would hand out.
    pub fn peek_next(&self) -> (r: u64)
        ensures
            r == self.next(),
    {
        self.next_id
    }

    /// Stores a session and hands out its fresh ID.
    pub fn insert(&mut self, request: EditRequest, media: Vec<u8>) -> (id: u64)
        requires
            old(self).wf(),
            old(self).next() < u64::MAX,
        ensures
            final(self).wf(),
            id == old(self).next(),
            final(self).next() == old(self).next() + 1,
            !old(self).contents().dom().contains(id),
            final(self).contents() == old(self).contents().insert(id,
                EditSession { request, media }),
    {
        let id = self.next_id;
        let ghost s0 = self.entries@;
        let session = EditSession { request, media };
        proof {
            lemma_key_index_absent(s0, id);
        }
        self.entries.push((id, session));
        self.next_id = self.next_id + 1;
        proof {
            let s1 = self.entries@;
            assert forall|k: u64| true implies (key_index(s1, k) >= 0 <==> (key_index(s0, k)
                >= 0 || k == id)) by {
                lemma_key_index_push(s0, s1.last(), k);
                lemma_key_index_range(s0, k);
            }
            assert forall|k: u64| key_index(s1, k) >= 0 implies s1[key_index(s1, k)].1 == (
                if k == id { s1.last().1 } else { s0[key_index(s0, k)].1 }) by {
                lemma_key_index_push(s0, s1.last(), k);
                lemma_key_index_range(s0, k);
                lemma_key_index_range(s1, k);
            }
            assert(self.contents() =~= old(self).contents().insert(id, session));
        }
        id
    }

    /// Takes the session of an ID out of the store, where one is held.
    pub fn take(&mut self, id: u64) -> (r: Option<EditSession>)
        requires
            old(self).wf(),
        ensures
            final(self).wf(),
            final(self).next() == old(self).next(),
            r is Some <==> old(self).contents().dom().contains(id),
            r matches Some(s) ==> s == old(self).contents()[id],
            r is Some ==> final(self).contents() == old(self).contents().remove(id),
            r is None ==> final(self).contents() == old(self).contents(),
    {
        let ghost s0 = self.entries@;
        let mut i: usize = 0;
        while i < self.entries.len()
            invariant
                self == old(self),
                old(self).wf(),
                s0 == self.entries@,
                i <= self.entries@.len(),
                forall|j: int| 0 <= j < i ==> (#[trigger] self.entries@[j]).0 != id,
            decreases self.entries@.len() - i,
        {
            if self.entries[i].0 == id {
                proof {
                    lemma_key_index_at(s0, i as int, id);
                }
                let entry = self.entries.remove(i);
                proof {
                    assert(self.entries@ =~= s0.remove(i as int));
                    assert forall|a: int, b: int| 0 <= a < b < self.entries@.len() implies (
                        #[trigger] self.entries@[a]).0 != (#[trigger] self.entries@[b]).0 by {
                        let sa = if a < i as int { s0[a] } else { s0[a + 1] };
                        let sb = if b < i as int { s0[b] } else { s0[b + 1] };
                        assert(self.entries@[a] == sa && self.entries@[b] == sb);
                    }
                    let s1 = s0.remove(i as int);
                    assert forall|k: u64| true implies ({
                        &&& (#[trigger] key_index(s1, k) >= 0 <==> (key_index(s0, k) >= 0
                            && k != id))
                        &&& (key_index(s1, k) >= 0 ==> s1[key_index(s1, k)].1
                            == s0[key_index(s0, k)].1)
                    }) by {
                        lemma_key_index_remove(s0, i as int, k);
                        lemma_key_index_range(s0, k);
                        lemma_key_index_range(s1, k);
                        if k == id {
                            assert(key_index(s0, k) == i as int);
                            assert(s0[i as int].0 == k);
                        }
                    }
                    assert(self.contents() =~= old(self).contents().remove(id));
                }
                return Some(entry.1);
            }
            i = i + 1;
        }
        proof {
            lemma_key_index_absent(s0, id);
        }
        None
    }
}

} // verus!
