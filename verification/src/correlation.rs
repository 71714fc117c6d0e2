//! The correlation table.
//!
//! A transient mapping from each outstanding request identifier to the
//! single-use completion handle that will carry the eventual response back
//! to the caller. Every identifier present corresponds to exactly one
//! in-flight request; an entry is removed exactly once, either when its
//! response is delivered or by the disconnect sweep. The table is the one
//! structure shared between the sending side and the inbound dispatch loop,
//! so its owner guards it with a mutual-exclusion lock; the operations here
//! are the ones performed under that lock.
//!
//! The handle type is a parameter: the table only stores and returns
//! handles, it never looks inside one.

use vstd::prelude::*;

verus! {

/// Association of identifiers to handles, in registration order.
pub struct CorrelationTable<T> {
    entries: Vec<(u64, T)>,
}

/// The identifiers of `entries` are pairwise distinct.
pub open spec fn distinct_ids<T>(entries: Seq<(u64, T)>) -> bool {
    forall|i: int, j: int|
        0 <= i < j < entries.len() ==> (#[trigger] entries[i]).0 != (#[trigger] entries[j]).0
}

/// The map an entry sequence denotes.
pub open spec fn map_of<T>(entries: Seq<(u64, T)>) -> Map<u64, T>
    decreases entries.len(),
{
    if entries.len() == 0 {
        Map::empty()
    } else {
        map_of(entries.drop_last()).insert(entries.last().0, entries.last().1)
    }
}

/// A key is in the denoted map exactly when some entry carries it.
proof fn lemma_map_of_domain<T>(entries: Seq<(u64, T)>, id: u64)
    ensures
        map_of(entries).contains_key(id) <==> exists|i: int|
            0 <= i < entries.len() && (#[trigger] entries[i]).0 == id,
    decreases entries.len(),
{
    if entries.len() > 0 {
        lemma_map_of_domain(entries.drop_last(), id);
        if map_of(entries).contains_key(id) {
            if entries.last().0 == id {
                assert(entries[entries.len() - 1].0 == id);
            } else {
                let i = choose|i: int|
                    0 <= i < entries.drop_last().len() && (#[trigger] entries.drop_last()[i]).0
                        == id;
                assert(entries[i].0 == id);
            }
        }
        if exists|i: int| 0 <= i < entries.len() && (#[trigger] entries[i]).0 == id {
            let i = choose|i: int| 0 <= i < entries.len() && (#[trigger] entries[i]).0 == id;
            if i < entries.len() - 1 {
                assert(entries.drop_last()[i].0 == id);
            }
        }
    }
}

/// With distinct identifiers, the entry carrying a key gives its map value.
proof fn lemma_map_of_lookup<T>(entries: Seq<(u64, T)>, i: int)
    requires
        distinct_ids(entries),
        0 <= i < entries.len(),
    ensures
        map_of(entries).contains_key(entries[i].0),
        map_of(entries)[entries[i].0] == entries[i].1,
    decreases entries.len(),
{
    if i == entries.len() - 1 {
    } else {
        assert(distinct_ids(entries.drop_last()));
        assert(entries.drop_last()[i] == entries[i]);
        lemma_map_of_lookup(entries.drop_last(), i);
        assert(entries[i].0 != entries.last().0);
    }
}

/// With distinct identifiers, removing the entry at `i` removes exactly its
/// key from the denoted map.
proof fn lemma_map_of_remove<T>(entries: Seq<(u64, T)>, i: int)
    requires
        distinct_ids(entries),
        0 <= i < entries.len(),
    ensures
        map_of(entries.remove(i)) == map_of(entries).remove(entries[i].0),
    decreases entries.len(),
{
    let id = entries[i].0;
    if i == entries.len() - 1 {
        assert(entries.remove(i) =~= entries.drop_last());
        lemma_map_of_domain(entries.drop_last(), id);
        assert forall|k: int| 0 <= k < entries.drop_last().len() implies (#[trigger] entries
            .drop_last()[k]).0 != id by {
            assert(entries[k] == entries.drop_last()[k]);
        }
        assert(!map_of(entries.drop_last()).contains_key(id));
        assert(map_of(entries.drop_last()) =~= map_of(entries).remove(id));
    } else {
        let shorter = entries.drop_last();
        assert(distinct_ids(shorter));
        lemma_map_of_remove(shorter, i);
        assert(entries.remove(i).drop_last() =~= shorter.remove(i));
        assert(entries.remove(i).last() == entries.last());
        assert(map_of(entries.remove(i)) == map_of(shorter.remove(i)).insert(
            entries.last().0,
            entries.last().1,
        ));
        assert(entries[i] == shorter[i]);
        assert(entries.last().0 != id);
        assert(map_of(shorter).remove(id).insert(entries.last().0, entries.last().1) =~= map_of(
            shorter,
        ).insert(entries.last().0, entries.last().1).remove(id));
    }
}

impl<T> CorrelationTable<T> {
    /// The identifiers currently outstanding, in registration order.
    pub closed spec fn order(&self) -> Seq<u64> {
        self.entries@.map_values(|p: (u64, T)| p.0)
    }

    /// The completion handles currently held, in registration order.
    pub closed spec fn handles(&self) -> Seq<T> {
        self.entries@.map_values(|p: (u64, T)| p.1)
    }

    /// The correlation the table denotes: identifier to completion handle.
    pub closed spec fn table(&self) -> Map<u64, T> {
        map_of(self.entries@)
    }

    /// No identifier occurs twice. Established by `new` and preserved by
    /// every operation.
    pub closed spec fn wf(&self) -> bool {
        distinct_ids(self.entries@)
    }

    /// An empty table.
    pub fn new() -> (r: CorrelationTable<T>)
        ensures
            r.wf(),
            r.table() == Map::<u64, T>::empty(),
            r.order() == Seq::<u64>::empty(),
            r.handles() == Seq::<T>::empty(),
    {
        let r = CorrelationTable { entries: Vec::new() };
        proof {
            assert(r.order() =~= Seq::<u64>::empty());
            assert(r.handles() =~= Seq::<T>::empty());
        }
        r
    }

    /// How many requests are outstanding.
    pub fn len(&self) -> (r: usize)
        ensures
            r == self.order().len(),
    {
        self.entries.len()
    }

    /// Whether `id` is outstanding.
    #[verifier::loop_isolation(false)]
    pub fn contains(&self, id: u64) -> (r: bool)
        ensures
            r == self.table().contains_key(id),
    {
        proof {
            lemma_map_of_domain(self.entries@, id);
        }
        let mut i: usize = 0;
        while i < self.entries.len()
            invariant
                i <= self.entries@.len(),
                forall|k: int| 0 <= k < i ==> (#[trigger] self.entries@[k]).0 != id,
            decreases self.entries@.len() - i,
        {
            if self.entries[i].0 == id {
                return true;
            }
            i += 1;
        }
        false
    }

    /// Registers a completion handle under `id`. Fails, leaving the table
    /// unchanged, exactly when `id` is already outstanding: no identifier is
    /// reused while still present.
    pub fn register(&mut self, id: u64, handle: T) -> (r: bool)
        requires
            old(self).wf(),
        ensures
            final(self).wf(),
            r == !old(self).table().contains_key(id),
            r ==> final(self).table() == old(self).table().insert(id, handle)
                && final(self).order() == old(self).order().push(id) && final(self).handles()
                == old(self).handles().push(handle),
            !r ==> *final(self) == *old(self),
    {
        if self.contains(id) {
            return false;
        }
        proof {
            lemma_map_of_domain(self.entries@, id);
        }
        self.entries.push((id, handle));
        proof {
            assert(self.entries@.drop_last() =~= old(self).entries@);
            assert(self.order() =~= old(self).order().push(id));
            assert(self.handles() =~= old(self).handles().push(handle));
            assert forall|i: int, j: int| 0 <= i < j < self.entries@.len() implies (
            #[trigger] self.entries@[i]).0 != (#[trigger] self.entries@[j]).0 by {
                if j < self.entries@.len() - 1 {
                    assert(old(self).entries@[i].0 != old(self).entries@[j].0);
                } else {
                    assert(self.entries@[i].0 == old(self).order()[i]);
                }
            }
        }
        true
    }

    /// Looks up and removes the handle registered under `id`. Returns `None`,
    /// leaving the table unchanged, exactly when `id` is not outstanding.
    /// Entries under other identifiers are untouched, whatever order
    /// responses arrive in.
    #[verifier::loop_isolation(false)]
    pub fn resolve(&mut self, id: u64) -> (r: Option<T>)
        requires
            old(self).wf(),
        ensures
            final(self).wf(),
            r is Some <==> old(self).table().contains_key(id),
            r matches Some(h) ==> h == old(self).table()[id] && final(self).table() == old(
                self,
            ).table().remove(id) && (exists|i: int|
                0 <= i < old(self).order().len() && old(self).order()[i] == id && final(self).order()
                    == old(self).order().remove(i) && final(self).handles() == old(
                    self,
                ).handles().remove(i)),
            r is None ==> *final(self) == *old(self),
    {
        proof {
            lemma_map_of_domain(self.entries@, id);
        }
        let mut i: usize = 0;
        while i < self.entries.len()
            invariant
                i <= self.entries@.len(),
                *self == *old(self),
                forall|k: int| 0 <= k < i ==> (#[trigger] self.entries@[k]).0 != id,
            decreases self.entries@.len() - i,
        {
            if self.entries[i].0 == id {
                proof {
                    lemma_map_of_lookup(self.entries@, i as int);
                    lemma_map_of_remove(self.entries@, i as int);
                    old(self).entries@.remove_ensures(i as int);
                }
                let (_, handle) = self.entries.remove(i);
                proof {
                    let o = old(self).entries@;
                    assert(distinct_ids(self.entries@)) by {
                        assert forall|a: int, b: int|
                            0 <= a < b < self.entries@.len() implies (
                        #[trigger] self.entries@[a]).0 != (#[trigger] self.entries@[b]).0 by {
                            if b < i {
                                assert(self.entries@[a] == o[a] && self.entries@[b] == o[b]);
                            } else if a < i {
                                assert(self.entries@[a] == o[a] && self.entries@[b] == o[b + 1]);
                            } else {
                                assert(self.entries@[a] == o[a + 1] && self.entries@[b] == o[b
                                    + 1]);
                            }
                        }
                    }
                    assert(self.order() =~= old(self).order().remove(i as int));
                    assert(self.handles() =~= old(self).handles().remove(i as int));
                    assert(old(self).order()[i as int] == id);
                }
                return Some(handle);
            }
            i += 1;
        }
        proof {
            lemma_map_of_domain(self.entries@, id);
        }
        None
    }

    /// Removes and returns every outstanding handle, in registration order,
    /// leaving the table empty. Used on fatal disconnect: each returned
    /// handle is then failed with a disconnect error, so that with K
    /// requests pending, all K callers are released and none stays blocked.
    pub fn drain(&mut self) -> (r: Vec<T>)
        requires
            old(self).wf(),
        ensures
            final(self).wf(),
            r@ == old(self).handles(),
            r@.len() == old(self).order().len(),
            final(self).table() == Map::<u64, T>::empty(),
            final(self).order() == Seq::<u64>::empty(),
            final(self).handles() == Seq::<T>::empty(),
    {
        let mut out: Vec<T> = Vec::new();
        while self.entries.len() > 0
            invariant
                out@.len() + self.entries@.len() == old(self).entries@.len(),
                out@ =~= old(self).handles().subrange(0, out@.len() as int),
                self.entries@ =~= old(self).entries@.subrange(
                    out@.len() as int,
                    old(self).entries@.len() as int,
                ),
            decreases self.entries@.len(),
        {
            let (_, handle) = self.entries.remove(0);
            out.push(handle);
            proof {
                let k = out@.len() as int;
                assert(old(self).handles()[k - 1] == old(self).entries@[k - 1].1);
                assert(out@ =~= old(self).handles().subrange(0, k));
                assert(self.entries@ =~= old(self).entries@.subrange(
                    k,
                    old(self).entries@.len() as int,
                ));
            }
        }
        proof {
            assert(out@ =~= old(self).handles());
            assert(self.order() =~= Seq::<u64>::empty());
            assert(self.handles() =~= Seq::<T>::empty());
            assert(self.entries@ =~= Seq::<(u64, T)>::empty());
        }
        out
    }
}

/// The handles handed out when responses for `ids` arrive in that order over
/// the correlation `m`: each delivery resolves its identifier, removing the
/// entry and yielding the handle registered under it.
pub open spec fn deliveries<T>(m: Map<u64, T>, ids: Seq<u64>) -> Seq<T>
    decreases ids.len(),
{
    if ids.len() == 0 {
        Seq::empty()
    } else {
        seq![m[ids.first()]] + deliveries(m.remove(ids.first()), ids.drop_first())
    }
}

/// Correlation correctness: with any number of requests outstanding under
/// distinct identifiers, delivering their responses in an arbitrary order
/// (`ids` is any arrangement of any subset of the outstanding identifiers)
/// resolves each with exactly the handle registered under its own
/// identifier, never another caller's.
pub proof fn lemma_correlation_correctness<T>(m: Map<u64, T>, ids: Seq<u64>)
    requires
        forall|k: int| 0 <= k < ids.len() ==> m.contains_key(#[trigger] ids[k]),
        forall|i: int, j: int| 0 <= i < j < ids.len() ==> ids[i] != ids[j],
    ensures
        deliveries(m, ids).len() == ids.len(),
        forall|k: int| 0 <= k < ids.len() ==> deliveries(m, ids)[k] == m[#[trigger] ids[k]],
    decreases ids.len(),
{
    if ids.len() > 0 {
        let head = ids.first();
        let m2 = m.remove(head);
        let rest = ids.drop_first();
        assert forall|k: int| 0 <= k < rest.len() implies m2.contains_key(#[trigger] rest[k]) by {
            assert(rest[k] == ids[k + 1]);
            assert(ids[k + 1] != ids[0]);
        }
        assert forall|i: int, j: int| 0 <= i < j < rest.len() implies rest[i] != rest[j] by {
            assert(rest[i] == ids[i + 1] && rest[j] == ids[j + 1]);
        }
        lemma_correlation_correctness(m2, rest);
        assert forall|k: int| 0 <= k < ids.len() implies deliveries(m, ids)[k] == m[
            #[trigger] ids[k]
        ] by {
            if k > 0 {
                assert(deliveries(m, ids)[k] == deliveries(m2, rest)[k - 1]);
                assert(deliveries(m2, rest)[k - 1] == m2[rest[k - 1]]);
                assert(rest[k - 1] == ids[k]);
                assert(ids[k] != ids[0]);
            }
        }
    }
}

} // verus!
