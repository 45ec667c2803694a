//! Bounded, order-preserving list of recently chosen emotes.
//!
//! The list keeps at most `capacity` emotes, most recent first, with no two
//! entries sharing an id.  Recording an access removes any prior entry with
//! the same id, evicts the least recent entry if the list is full, and puts
//! the accessed emote at the front.  The whole list is meant to be persisted
//! after every mutation and reloaded at startup; the document codec lives in
//! [`crate::codec`].

use vstd::prelude::*;

use crate::emote::EmoteModel;
use crate::emote::WebmEmote;
use crate::emote::models_of;

verus! {

/// No two entries share an id.
pub open spec fn ids_unique(l: Seq<EmoteModel>) -> bool {
    forall|i: int, j: int|
        0 <= i < j < l.len() ==> (#[trigger] l[i]).id != (#[trigger] l[j]).id
}

/// Whether some entry has the given id.
pub open spec fn contains_id(l: Seq<EmoteModel>, id: Seq<char>) -> bool {
    exists|i: int| 0 <= i < l.len() && (#[trigger] l[i]).id == id
}

/// The list with its first entry of the given id removed; unchanged when no
/// entry has that id.
pub open spec fn remove_id(l: Seq<EmoteModel>, id: Seq<char>) -> Seq<EmoteModel>
    decreases l.len(),
{
    if l.len() == 0 {
        Seq::empty()
    } else if l[0].id == id {
        l.drop_first()
    } else {
        seq![l[0]] + remove_id(l.drop_first(), id)
    }
}

/// What one access does to the list: drop any entry with the same id, evict
/// the least recent entry if the list is full, and put the emote in front.
pub open spec fn access_step(l: Seq<EmoteModel>, e: EmoteModel, cap: int) -> Seq<EmoteModel> {
    let removed = remove_id(l, e.id);
    let bounded = if removed.len() >= cap {
        removed.drop_last()
    } else {
        removed
    };
    seq![e] + bounded
}

/// What loading a saved document reconstructs: the stored order, keeping the
/// first entry of each id, up to capacity.  A document this list itself
/// wrote is reconstructed unchanged.
pub open spec fn restore(l: Seq<EmoteModel>, cap: int) -> Seq<EmoteModel>
    decreases l.len(),
{
    if l.len() == 0 {
        Seq::empty()
    } else {
        let prefix = restore(l.drop_last(), cap);
        if prefix.len() < cap && !contains_id(prefix, l.last().id) {
            prefix.push(l.last())
        } else {
            prefix
        }
    }
}

proof fn lemma_remove_id_absent(l: Seq<EmoteModel>, id: Seq<char>)
    requires
        !contains_id(l, id),
    ensures
        remove_id(l, id) == l,
    decreases l.len(),
{
    if l.len() > 0 {
        assert(l[0].id != id);
        lemma_remove_id_absent(l.drop_first(), id);
        assert(seq![l[0]] + l.drop_first() =~= l);
    }
}

proof fn lemma_remove_id_at(l: Seq<EmoteModel>, id: Seq<char>, pos: int)
    requires
        0 <= pos < l.len(),
        l[pos].id == id,
        forall|i: int| 0 <= i < pos ==> (#[trigger] l[i]).id != id,
    ensures
        remove_id(l, id) == l.remove(pos),
    decreases pos,
{
    if pos == 0 {
        assert(l.drop_first() =~= l.remove(0));
    } else {
        lemma_remove_id_at(l.drop_first(), id, pos - 1);
        assert(seq![l[0]] + l.drop_first().remove(pos - 1) =~= l.remove(pos));
    }
}

proof fn lemma_remove_id_keeps_unique(l: Seq<EmoteModel>, id: Seq<char>)
    requires
        ids_unique(l),
    ensures
        ids_unique(remove_id(l, id)),
        !contains_id(remove_id(l, id), id) || !contains_id(l, id),
    decreases l.len(),
{
    if l.len() > 0 {
        if l[0].id == id {
            assert(forall|k: int|
                0 <= k < l.drop_first().len() ==> (#[trigger] l.drop_first()[k]) == l[k + 1]);
        } else {
            lemma_remove_id_keeps_unique(l.drop_first(), id);
            let r = seq![l[0]] + remove_id(l.drop_first(), id);
            assert(forall|k: int|
                0 <= k < remove_id(l.drop_first(), id).len() ==> exists|m: int|
                    1 <= m < l.len() && (#[trigger] remove_id(l.drop_first(), id)[k]) == l[m]) by {
                lemma_remove_id_members(l.drop_first(), id);
            }
            assert(ids_unique(r));
            if contains_id(l, id) {
                let w = choose|w: int| 0 <= w < l.len() && (#[trigger] l[w]).id == id;
                assert(l.drop_first()[w - 1].id == id);
                assert(contains_id(l.drop_first(), id));
                assert(!contains_id(remove_id(l.drop_first(), id), id));
                if contains_id(r, id) {
                    let k = choose|k: int| 0 <= k < r.len() && (#[trigger] r[k]).id == id;
                    assert(k != 0);
                    assert(r[k] == remove_id(l.drop_first(), id)[k - 1]);
                    assert(contains_id(remove_id(l.drop_first(), id), id));
                }
                assert(!contains_id(r, id));
            }
        }
    }
}

proof fn lemma_remove_id_members(l: Seq<EmoteModel>, id: Seq<char>)
    ensures
        forall|k: int|
            0 <= k < remove_id(l, id).len() ==> exists|m: int|
                0 <= m < l.len() && (#[trigger] remove_id(l, id)[k]) == l[m],
    decreases l.len(),
{
    if l.len() > 0 {
        lemma_remove_id_members(l.drop_first(), id);
        if l[0].id != id {
            let r = seq![l[0]] + remove_id(l.drop_first(), id);
            assert forall|k: int| 0 <= k < r.len() implies exists|m: int|
                0 <= m < l.len() && (#[trigger] r[k]) == l[m] by {
                if k == 0 {
                    assert(r[0] == l[0]);
                } else {
                    let m0 = choose|m: int|
                        0 <= m < l.drop_first().len() && remove_id(l.drop_first(), id)[k - 1]
                            == l.drop_first()[m];
                    assert(r[k] == l[m0 + 1]);
                }
            }
        }
    }
}

/// Recency bound and order: after any access to a well-formed list, the
/// accessed emote is in front, the length still respects the capacity, and
/// no id is stored twice.
pub proof fn lemma_recency_bound_and_order(l: Seq<EmoteModel>, e: EmoteModel, cap: int)
    requires
        cap >= 1,
        ids_unique(l),
        l.len() <= cap,
    ensures
        ({
            let r = access_step(l, e, cap);
            &&& r.len() <= cap
            &&& r[0] == e
            &&& ids_unique(r)
        }),
{
    let removed = remove_id(l, e.id);
    lemma_remove_id_keeps_unique(l, e.id);
    lemma_remove_id_len(l, e.id);
    let bounded = if removed.len() >= cap {
        removed.drop_last()
    } else {
        removed
    };
    assert(ids_unique(bounded));
    if contains_id(bounded, e.id) {
        let i = choose|i: int| 0 <= i < bounded.len() && (#[trigger] bounded[i]).id == e.id;
        assert(contains_id(removed, e.id));
        if contains_id(l, e.id) {
            assert(!contains_id(removed, e.id));
        } else {
            lemma_remove_id_absent(l, e.id);
        }
    }
    let r = seq![e] + bounded;
    assert forall|i: int, j: int| 0 <= i < j < r.len() implies (#[trigger] r[i]).id
        != (#[trigger] r[j]).id by {
        if i == 0 {
            assert(bounded[j - 1].id != e.id);
        }
    }
}

proof fn lemma_remove_id_len(l: Seq<EmoteModel>, id: Seq<char>)
    ensures
        remove_id(l, id).len() <= l.len(),
        contains_id(l, id) ==> remove_id(l, id).len() == l.len() - 1,
        !contains_id(l, id) ==> remove_id(l, id).len() == l.len(),
    decreases l.len(),
{
    if l.len() > 0 {
        lemma_remove_id_len(l.drop_first(), id);
        if l[0].id != id {
            if contains_id(l, id) {
                let i = choose|i: int| 0 <= i < l.len() && (#[trigger] l[i]).id == id;
                assert(l.drop_first()[i - 1].id == id);
                assert(contains_id(l.drop_first(), id));
            }
            if contains_id(l.drop_first(), id) {
                let i = choose|i: int|
                    0 <= i < l.drop_first().len() && (#[trigger] l.drop_first()[i]).id == id;
                assert(l[i + 1].id == id);
            }
        }
    }
}

/// The in-memory recency list, most recent first.
pub struct RecentEmotes {
    emotes: Vec<WebmEmote>,
    capacity: usize,
}

impl View for RecentEmotes {
    type V = Seq<EmoteModel>;

    closed spec fn view(&self) -> Seq<EmoteModel> {
        models_of(self.emotes@)
    }
}

impl RecentEmotes {
    /// The bound this list was created with.
    pub closed spec fn spec_capacity(&self) -> int {
        self.capacity as int
    }

    /// A well-formed list: within its bound, ids unique, bound positive.
    pub open spec fn wf(&self) -> bool {
        &&& self@.len() <= self.spec_capacity()
        &&& ids_unique(self@)
        &&& self.spec_capacity() >= 1
    }

    /// An empty recency list with the given bound.
    pub fn new(capacity: usize) -> (r: Self)
        requires
            capacity >= 1,
        ensures
            r@ == Seq::<EmoteModel>::empty(),
            r.spec_capacity() == capacity,
            r.wf(),
    {
        let r = RecentEmotes { emotes: Vec::new(), capacity };
        proof {
            assert(r@ =~= Seq::<EmoteModel>::empty());
        }
        r
    }

    /// The bound this list was created with.
    pub fn capacity(&self) -> (c: usize)
        ensures
            c == self.spec_capacity(),
    {
        self.capacity
    }

    /// Record that an emote was chosen: any entry with the same id goes
    /// away, the least recent entry is evicted if the list is full, and the
    /// emote moves to the front.  The caller persists the new list.
    pub fn access(&mut self, emote: WebmEmote)
        requires
            old(self).wf(),
        ensures
            final(self).wf(),
            final(self).spec_capacity() == old(self).spec_capacity(),
            final(self)@ == access_step(old(self)@, emote@, old(self).spec_capacity()),
    {
        let ghost l = self@;
        let ghost cap = self.spec_capacity();
        let mut pos: usize = 0;
        let mut found: bool = false;
        while pos < self.emotes.len()
            invariant_except_break
                !found,
            invariant
                pos <= self.emotes@.len(),
                self@ == l,
                forall|i: int| 0 <= i < pos ==> (#[trigger] l[i]).id != emote@.id,
                found ==> pos < l.len() && l[pos as int].id == emote@.id,
            ensures
                found ==> pos < l.len() && l[pos as int].id == emote@.id,
                !found ==> !contains_id(l, emote@.id),
            decreases self.emotes@.len() - pos,
        {
            if self.emotes[pos].id == emote.id {
                found = true;
                break;
            }
            pos = pos + 1;
        }
        if found {
            self.emotes.remove(pos);
            proof {
                lemma_remove_id_at(l, emote@.id, pos as int);
                assert(models_of(old(self).emotes@.remove(pos as int)) =~= remove_id(l, emote@.id));
            }
        } else {
            proof {
                lemma_remove_id_absent(l, emote@.id);
            }
        }
        let ghost removed = remove_id(l, emote@.id);
        assert(self@ == removed);
        if self.emotes.len() >= self.capacity {
            self.emotes.pop();
            proof {
                assert(models_of(self.emotes@) =~= removed.drop_last());
            }
        }
        let ghost bounded = self@;
        self.emotes.insert(0, emote);
        proof {
            assert(models_of(self.emotes@) =~= seq![emote@] + bounded);
            lemma_recency_bound_and_order(l, emote@, cap);
        }
    }

    /// Rebuild the list from a saved document's records: stored order, first
    /// entry of each id, up to capacity.  A document written from a
    /// well-formed list comes back exactly as stored.
    pub fn load_saved(&mut self, saved: Vec<WebmEmote>)
        requires
            old(self).wf(),
        ensures
            final(self).wf(),
            final(self).spec_capacity() == old(self).spec_capacity(),
            final(self)@ == restore(models_of(saved@), old(self).spec_capacity()),
            ids_unique(models_of(saved@)) && models_of(saved@).len() <= old(self).spec_capacity()
                ==> final(self)@ == models_of(saved@),
    {
        let ghost cap = self.spec_capacity();
        let ghost sm = models_of(saved@);
        let mut out: Vec<WebmEmote> = Vec::new();
        let mut i: usize = 0;
        proof {
            assert(models_of(out@) =~= restore(sm.subrange(0, 0), cap));
        }
        while i < saved.len()
            invariant
                i <= saved@.len(),
                sm == models_of(saved@),
                cap == self.spec_capacity(),
                self.capacity >= 1,
                models_of(out@) == restore(sm.subrange(0, i as int), cap),
                out@.len() <= cap,
                ids_unique(models_of(out@)),
            decreases saved@.len() - i,
        {
            let ghost prefix = restore(sm.subrange(0, i as int), cap);
            proof {
                assert(sm.subrange(0, i as int + 1).drop_last() =~= sm.subrange(0, i as int));
                assert(sm.subrange(0, i as int + 1).last() == sm[i as int]);
            }
            let mut present: bool = false;
            let mut j: usize = 0;
            while j < out.len()
                invariant_except_break
                    !present,
                invariant
                    j <= out@.len(),
                    forall|k: int|
                        0 <= k < j ==> (#[trigger] models_of(out@)[k]).id != saved@[i as int]@.id,
                    i < saved@.len(),
                    sm == models_of(saved@),
                ensures
                    present ==> contains_id(models_of(out@), sm[i as int].id),
                    !present ==> !contains_id(models_of(out@), sm[i as int].id),
                decreases out@.len() - j,
            {
                if out[j].id == saved[i].id {
                    proof {
                        assert(models_of(out@)[j as int] == out@[j as int]@);
                        assert(models_of(out@)[j as int].id == sm[i as int].id);
                    }
                    present = true;
                    break;
                }
                j = j + 1;
            }
            if !present && out.len() < self.capacity {
                out.push(saved[i].clone());
                proof {
                    assert(models_of(out@) =~= prefix.push(sm[i as int]));
                    assert forall|a: int, b: int| 0 <= a < b < models_of(out@).len() implies (
                    #[trigger] models_of(out@)[a]).id != (#[trigger] models_of(out@)[b]).id by {
                        if b == models_of(out@).len() - 1 {
                            assert(!contains_id(prefix, sm[i as int].id));
                            assert(prefix[a].id != sm[i as int].id);
                        }
                    }
                }
            } else {
                proof {
                    if present {
                        assert(restore(sm.subrange(0, i as int + 1), cap) == prefix);
                    }
                }
            }
            i = i + 1;
        }
        proof {
            assert(sm.subrange(0, sm.len() as int) =~= sm);
        }
        self.emotes = out;
        proof {
            if ids_unique(sm) && sm.len() <= cap {
                lemma_restore_identity(sm, cap);
            }
        }
    }

    /// A snapshot of the current list, most recent first, without mutating
    /// it.
    pub fn recent(&self) -> (r: Vec<WebmEmote>)
        ensures
            models_of(r@) == self@,
    {
        let mut r: Vec<WebmEmote> = Vec::new();
        let mut i: usize = 0;
        while i < self.emotes.len()
            invariant
                i <= self.emotes@.len(),
                models_of(r@) == self@.subrange(0, i as int),
            decreases self.emotes@.len() - i,
        {
            let ghost prev = r@;
            let e = self.emotes[i].clone();
            proof {
                assert(e == self.emotes@[i as int]);
            }
            r.push(e);
            proof {
                assert(r@ == prev.push(self.emotes@[i as int]));
                assert(models_of(r@) =~= models_of(prev).push(self@[i as int]));
                assert(models_of(r@) =~= self@.subrange(0, i as int + 1));
            }
            i = i + 1;
        }
        proof {
            assert(self@.subrange(0, self@.len() as int) =~= self@);
        }
        r
    }

    /// How many emotes are currently stored.
    pub fn len(&self) -> (n: usize)
        ensures
            n == self@.len(),
    {
        self.emotes.len()
    }
}

/// A well-formed list survives a save/restore of its records unchanged.
pub proof fn lemma_restore_identity(l: Seq<EmoteModel>, cap: int)
    requires
        ids_unique(l),
        l.len() <= cap,
    ensures
        restore(l, cap) == l,
    decreases l.len(),
{
    if l.len() > 0 {
        assert(ids_unique(l.drop_last())) by {
            assert(forall|k: int|
                0 <= k < l.drop_last().len() ==> (#[trigger] l.drop_last()[k]) == l[k]);
        }
        lemma_restore_identity(l.drop_last(), cap);
        if contains_id(l.drop_last(), l.last().id) {
            let i = choose|i: int|
                0 <= i < l.drop_last().len() && (#[trigger] l.drop_last()[i]).id == l.last().id;
            assert(l[i].id == l[l.len() - 1].id);
            assert(false);
        }
        assert(l.drop_last().push(l.last()) =~= l);
    }
}

} // verus!
