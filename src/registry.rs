use vstd::prelude::*;

use crate::text::same_text;

verus! {

/// What the registry holds for one registered connection: its nickname, the
/// handle of its outbound queue and the handle that cancels its session.
#[derive(Debug, Clone, PartialEq, Eq)]
pub struct Member<Q, K> {
    pub name: String,
    pub queue: Q,
    pub cancel: K,
}

/// Registering failed: the nickname belongs to another connection.
#[derive(Debug, Clone, Copy, PartialEq, Eq, Structural)]
pub struct NameTaken;

/// Who is online. Each connection id maps to its nickname, outbound queue and
/// cancellation handle, all three set and removed together; the nickname to id
/// direction is the inverse of the id to nickname one.
pub struct Registry<Q, K> {
    slots: Vec<(u64, Member<Q, K>)>,
}

/// No two connections share a nickname.
pub open spec fn unique_names<Q, K>(m: Map<u64, Member<Q, K>>) -> bool {
    forall|a: u64, b: u64|
        #![trigger m[a], m[b]]
        m.contains_key(a) && m.contains_key(b) && a != b ==> m[a].name@ != m[b].name@
}

/// The connection that holds `name`, if any.
pub open spec fn owner_of<Q, K>(m: Map<u64, Member<Q, K>>, name: Seq<char>) -> Option<u64> {
    if exists|id: u64| m.contains_key(id) && m[id].name@ == name {
        Some(choose|id: u64| m.contains_key(id) && m[id].name@ == name)
    } else {
        None
    }
}

/// Some connection other than `id` holds `name`.
pub open spec fn held_by_other<Q, K>(m: Map<u64, Member<Q, K>>, id: u64, name: Seq<char>) -> bool {
    exists|other: u64| m.contains_key(other) && other != id && m[other].name@ == name
}

spec fn slots_view<Q, K>(s: Seq<(u64, Member<Q, K>)>) -> Map<u64, Member<Q, K>> {
    Map::new(
        |id: u64| exists|i: int| 0 <= i < s.len() && s[i].0 == id,
        |id: u64| s[choose|i: int| 0 <= i < s.len() && s[i].0 == id].1,
    )
}

spec fn ids_distinct<Q, K>(s: Seq<(u64, Member<Q, K>)>) -> bool {
    forall|i: int, j: int|
        #![trigger s[i].0, s[j].0]
        0 <= i < s.len() && 0 <= j < s.len() && i != j ==> s[i].0 != s[j].0
}

spec fn names_distinct<Q, K>(s: Seq<(u64, Member<Q, K>)>) -> bool {
    forall|i: int, j: int|
        #![trigger s[i].1.name, s[j].1.name]
        0 <= i < s.len() && 0 <= j < s.len() && i != j ==> s[i].1.name@ != s[j].1.name@
}

proof fn lemma_slot<Q, K>(s: Seq<(u64, Member<Q, K>)>, i: int)
    requires
        ids_distinct(s),
        0 <= i < s.len(),
    ensures
        slots_view(s).contains_key(s[i].0),
        slots_view(s)[s[i].0] == s[i].1,
{
    let id = s[i].0;
    assert(exists|j: int| 0 <= j < s.len() && s[j].0 == id);
    let j = choose|j: int| 0 <= j < s.len() && s[j].0 == id;
    assert(s[i].0 == s[j].0);
}

proof fn lemma_slot_of<Q, K>(s: Seq<(u64, Member<Q, K>)>, id: u64) -> (i: int)
    requires
        ids_distinct(s),
        slots_view(s).contains_key(id),
    ensures
        0 <= i < s.len(),
        s[i].0 == id,
        slots_view(s)[id] == s[i].1,
{
    let i = choose|i: int| 0 <= i < s.len() && s[i].0 == id;
    lemma_slot(s, i);
    i
}

proof fn lemma_unique<Q, K>(s: Seq<(u64, Member<Q, K>)>)
    requires
        ids_distinct(s),
        names_distinct(s),
    ensures
        unique_names(slots_view(s)),
{
    let m = slots_view(s);
    assert forall|a: u64, b: u64|
        #![trigger m[a], m[b]]
        m.contains_key(a) && m.contains_key(b) && a != b implies m[a].name@ != m[b].name@ by {
        let i = lemma_slot_of(s, a);
        let j = lemma_slot_of(s, b);
        assert(s[i].1.name == m[a].name);
    }
}

proof fn lemma_remove<Q, K>(s: Seq<(u64, Member<Q, K>)>, k: int)
    requires
        ids_distinct(s),
        names_distinct(s),
        0 <= k < s.len(),
    ensures
        ids_distinct(s.remove(k)),
        names_distinct(s.remove(k)),
        slots_view(s.remove(k)) == slots_view(s).remove(s[k].0),
{
    let t = s.remove(k);
    let old_of = |j: int|
        if j < k {
            j
        } else {
            j + 1
        };
    assert forall|i: int, j: int|
        #![trigger t[i].0, t[j].0]
        0 <= i < t.len() && 0 <= j < t.len() && i != j implies t[i].0 != t[j].0 by {
        assert(t[i] == s[old_of(i)] && t[j] == s[old_of(j)]);
    }
    assert forall|i: int, j: int|
        #![trigger t[i].1.name, t[j].1.name]
        0 <= i < t.len() && 0 <= j < t.len() && i != j implies t[i].1.name@ != t[j].1.name@ by {
        assert(t[i] == s[old_of(i)] && t[j] == s[old_of(j)]);
    }
    let a = slots_view(t);
    let b = slots_view(s).remove(s[k].0);
    assert forall|id: u64| #[trigger] a.contains_key(id) <==> b.contains_key(id) by {
        if a.contains_key(id) {
            let i = lemma_slot_of(t, id);
            assert(t[i] == s[old_of(i)]);
            lemma_slot(s, old_of(i));
        }
        if b.contains_key(id) {
            let i = lemma_slot_of(s, id);
            let j = if i < k {
                i
            } else {
                i - 1
            };
            assert(t[j] == s[i]);
            lemma_slot(t, j);
        }
    }
    assert forall|id: u64| #[trigger] a.contains_key(id) implies a[id] == b[id] by {
        let i = lemma_slot_of(t, id);
        assert(t[i] == s[old_of(i)]);
        lemma_slot(s, old_of(i));
    }
    assert(a =~= b);
}

proof fn lemma_push<Q, K>(s: Seq<(u64, Member<Q, K>)>, id: u64, m: Member<Q, K>)
    requires
        ids_distinct(s),
        names_distinct(s),
        !slots_view(s).contains_key(id),
        forall|i: int| 0 <= i < s.len() ==> #[trigger] s[i].1.name@ != m.name@,
    ensures
        ids_distinct(s.push((id, m))),
        names_distinct(s.push((id, m))),
        slots_view(s.push((id, m))) == slots_view(s).insert(id, m),
{
    let t = s.push((id, m));
    assert forall|i: int| 0 <= i < s.len() implies #[trigger] s[i].0 != id by {
        lemma_slot(s, i);
    }
    assert forall|i: int, j: int|
        #![trigger t[i].0, t[j].0]
        0 <= i < t.len() && 0 <= j < t.len() && i != j implies t[i].0 != t[j].0 by {
        if i < s.len() {
            assert(t[i] == s[i]);
        }
        if j < s.len() {
            assert(t[j] == s[j]);
        }
    }
    assert forall|i: int, j: int|
        #![trigger t[i].1.name, t[j].1.name]
        0 <= i < t.len() && 0 <= j < t.len() && i != j implies t[i].1.name@ != t[j].1.name@ by {
        if i < s.len() {
            assert(t[i] == s[i]);
        }
        if j < s.len() {
            assert(t[j] == s[j]);
        }
    }
    let a = slots_view(t);
    let b = slots_view(s).insert(id, m);
    assert forall|x: u64| #[trigger] a.contains_key(x) <==> b.contains_key(x) by {
        if a.contains_key(x) && x != id {
            let i = lemma_slot_of(t, x);
            assert(t[i] == s[i]);
            lemma_slot(s, i);
        }
        if b.contains_key(x) {
            if x == id {
                lemma_slot(t, s.len() as int);
            } else {
                let i = lemma_slot_of(s, x);
                assert(t[i] == s[i]);
                lemma_slot(t, i);
            }
        }
    }
    assert forall|x: u64| #[trigger] a.contains_key(x) implies a[x] == b[x] by {
        let i = lemma_slot_of(t, x);
        if x != id {
            assert(t[i] == s[i]);
            lemma_slot(s, i);
        }
    }
    assert(a =~= b);
}

impl<Q, K> View for Registry<Q, K> {
    type V = Map<u64, Member<Q, K>>;

    closed spec fn view(&self) -> Map<u64, Member<Q, K>> {
        slots_view(self.slots@)
    }
}

impl<Q, K> Registry<Q, K> {
    /// The registry is consistent: nicknames are unique, so the nickname to id
    /// direction is a function.
    pub open spec fn wf(&self) -> bool {
        self.inv() && unique_names(self@)
    }

    /// The slots hold distinct ids and distinct nicknames.
    pub closed spec fn inv(&self) -> bool {
        ids_distinct(self.slots@) && names_distinct(self.slots@)
    }

    /// An empty registry.
    pub fn new() -> (r: Self)
        ensures
            r.wf(),
            r@ == Map::<u64, Member<Q, K>>::empty(),
    {
        let r = Registry { slots: Vec::new() };
        proof {
            lemma_unique(r.slots@);
            assert(r@ =~= Map::<u64, Member<Q, K>>::empty());
        }
        r
    }

    /// Index of the slot of `id`, if any.
    fn slot_of(&self, id: u64) -> (r: Option<usize>)
        requires
            self.inv(),
        ensures
            match r {
                Some(i) => i < self.slots@.len() && self.slots@[i as int].0 == id
                    && self@.contains_key(id) && self@[id] == self.slots@[i as int].1,
                None => !self@.contains_key(id),
            },
    {
        let mut i: usize = 0;
        while i < self.slots.len()
            invariant
                self.inv(),
                i <= self.slots@.len(),
                forall|k: int| 0 <= k < i ==> #[trigger] self.slots@[k].0 != id,
            decreases self.slots@.len() - i,
        {
            if self.slots[i].0 == id {
                proof {
                    lemma_slot(self.slots@, i as int);
                }
                return Some(i);
            }
            i = i + 1;
        }
        proof {
            if self@.contains_key(id) {
                let k = lemma_slot_of(self.slots@, id);
            }
        }
        None
    }

    /// The connection registered under `name`, if any.
    pub fn lookup_by_name(&self, name: &str) -> (r: Option<u64>)
        requires
            self.wf(),
        ensures
            r == owner_of(self@, name@),
    {
        let mut i: usize = 0;
        while i < self.slots.len()
            invariant
                self.wf(),
                i <= self.slots@.len(),
                forall|k: int| 0 <= k < i ==> #[trigger] self.slots@[k].1.name@ != name@,
            decreases self.slots@.len() - i,
        {
            if same_text(self.slots[i].1.name.as_str(), name) {
                let id = self.slots[i].0;
                proof {
                    lemma_slot(self.slots@, i as int);
                    let m = self@;
                    assert(m.contains_key(id) && m[id].name@ == name@);
                    let c = choose|c: u64| m.contains_key(c) && m[c].name@ == name@;
                    assert(m[c].name@ == m[id].name@);
                }
                return Some(id);
            }
            i = i + 1;
        }
        proof {
            let m = self@;
            if exists|c: u64| m.contains_key(c) && m[c].name@ == name@ {
                let c = choose|c: u64| m.contains_key(c) && m[c].name@ == name@;
                let k = lemma_slot_of(self.slots@, c);
            }
        }
        None
    }

    /// The outbound queue of `id`, if it is registered.
    pub fn lookup_by_id(&self, id: u64) -> (r: Option<&Q>)
        requires
            self.wf(),
        ensures
            match r {
                Some(q) => self@.contains_key(id) && *q == self@[id].queue,
                None => !self@.contains_key(id),
            },
    {
        match self.slot_of(id) {
            Some(i) => Some(&self.slots[i].1.queue),
            None => None,
        }
    }

    /// The nickname of `id`, if it is registered.
    pub fn name_of(&self, id: u64) -> (r: Option<String>)
        requires
            self.wf(),
        ensures
            match r {
                Some(n) => self@.contains_key(id) && n@ == self@[id].name@,
                None => !self@.contains_key(id),
            },
    {
        match self.slot_of(id) {
            Some(i) => Some(self.slots[i].1.name.clone()),
            None => None,
        }
    }

    /// Registers `id` under `name` with its two handles, unless another
    /// connection holds `name`; in that case nothing changes.
    pub fn register(&mut self, id: u64, name: String, queue: Q, cancel: K) -> (r: Result<(), NameTaken>)
        requires
            old(self).wf(),
        ensures
            final(self).wf(),
            held_by_other(old(self)@, id, name@) ==> r == Err::<(), NameTaken>(NameTaken)
                && final(self)@ == old(self)@,
            !held_by_other(old(self)@, id, name@) ==> r == Ok::<(), NameTaken>(())
                && final(self)@ == old(self)@.insert(id, (Member { name: name, queue: queue, cancel: cancel })),
    {
        let ghost m = self@;
        let mut i: usize = 0;
        while i < self.slots.len()
            invariant
                self.wf(),
                self@ == m,
                i <= self.slots@.len(),
                forall|k: int|
                    0 <= k < i && #[trigger] self.slots@[k].1.name@ == name@ ==> self.slots@[k].0
                        == id,
            decreases self.slots@.len() - i,
        {
            if self.slots[i].0 != id && self.slots[i].1.name == name {
                proof {
                    lemma_slot(self.slots@, i as int);
                }
                return Err(NameTaken);
            }
            i = i + 1;
        }
        proof {
            if held_by_other(m, id, name@) {
                let o = choose|o: u64| m.contains_key(o) && o != id && m[o].name@ == name@;
                let k = lemma_slot_of(self.slots@, o);
            }
        }
        match self.slot_of(id) {
            Some(k) => {
                proof {
                    lemma_remove(self.slots@, k as int);
                }
                self.slots.remove(k);
            },
            None => {
                proof {
                    assert(self@.remove(id) =~= self@);
                }
            },
        }
        let ghost s = self.slots@;
        proof {
            assert forall|k: int| 0 <= k < s.len() implies #[trigger] s[k].1.name@ != name@ by {
                lemma_slot(s, k);
                assert(s[k].0 != id);
                assert(m.contains_key(s[k].0) && m[s[k].0] == s[k].1);
            }
            lemma_push(s, id, Member { name: name, queue: queue, cancel: cancel });
        }
        self.slots.push((id, Member { name, queue, cancel }));
        proof {
            lemma_unique(self.slots@);
            assert(self@ =~= m.insert(id, Member { name: name, queue: queue, cancel: cancel }));
        }
        Ok(())
    }

    /// Removes `id` with its nickname and both handles, and hands them back so
    /// that the caller can fire the cancellation handle. On an id that is not
    /// registered it does nothing.
    pub fn deregister(&mut self, id: u64) -> (r: Option<Member<Q, K>>)
        requires
            old(self).wf(),
        ensures
            final(self).wf(),
            final(self)@ == old(self)@.remove(id),
            match r {
                Some(e) => old(self)@.contains_key(id) && e == old(self)@[id],
                None => !old(self)@.contains_key(id),
            },
    {
        match self.slot_of(id) {
            Some(k) => {
                proof {
                    lemma_remove(self.slots@, k as int);
                }
                let (_, e) = self.slots.remove(k);
                proof {
                    lemma_unique(self.slots@);
                }
                Some(e)
            },
            None => {
                proof {
                    assert(self@.remove(id) =~= self@);
                }
                None
            },
        }
    }
}

/// Name and id lookups agree: the connection that holds the nickname of a
/// registered id is that id, and a nickname resolves only to a connection that
/// holds it.
pub proof fn lemma_name_round_trip<Q, K>(reg: &Registry<Q, K>, id: u64)
    requires
        reg.wf(),
        reg@.contains_key(id),
    ensures
        owner_of(reg@, reg@[id].name@) == Some(id),
        forall|n: Seq<char>|
            #![trigger owner_of(reg@, n)]
            owner_of(reg@, n) == Some(id) ==> reg@[id].name@ == n,
{
    let m = reg@;
    let n = m[id].name@;
    assert(m.contains_key(id) && m[id].name@ == n);
    let c = choose|c: u64| m.contains_key(c) && m[c].name@ == n;
    assert(m[c].name@ == m[id].name@);
}

/// A nickname held by a registered connection counts as taken for every other
/// id, so `register` refuses it to them and leaves the registry as it was.
pub proof fn lemma_taken_name_refused<Q, K>(reg: &Registry<Q, K>, holder: u64, other: u64)
    requires
        reg.wf(),
        reg@.contains_key(holder),
        other != holder,
    ensures
        held_by_other(reg@, other, reg@[holder].name@),
{
}

/// Removing an id a second time, or one that was never there, changes nothing.
pub proof fn lemma_deregister_idempotent<Q, K>(m: Map<u64, Member<Q, K>>, id: u64)
    ensures
        !m.remove(id).contains_key(id),
        m.remove(id).remove(id) == m.remove(id),
        !m.contains_key(id) ==> m.remove(id) == m,
{
    assert(m.remove(id).remove(id) =~= m.remove(id));
    if !m.contains_key(id) {
        assert(m.remove(id) =~= m);
    }
}

/// Once a connection is removed, its nickname is free for any id to register.
pub proof fn lemma_removal_frees_name<Q, K>(reg: &Registry<Q, K>, gone: u64, newcomer: u64)
    requires
        reg.wf(),
        reg@.contains_key(gone),
    ensures
        !held_by_other(reg@.remove(gone), newcomer, reg@[gone].name@),
        owner_of(reg@.remove(gone), reg@[gone].name@) == None::<u64>,
{
    let m = reg@;
    let r = m.remove(gone);
    let n = m[gone].name@;
    assert forall|o: u64| r.contains_key(o) implies #[trigger] r[o].name@ != n by {
        assert(m.contains_key(o) && o != gone);
    }
}

} // verus!
