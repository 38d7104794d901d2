//! A small object registry: a factory of prototypes and a manager that keeps
//! live and dangling objects by id.  Both are specified through the maps
//! their association lists denote.

use vstd::prelude::*;

use crate::text::str_eq;

verus! {

/// An orchestrated object, carrying its uid.
#[derive(Clone, Debug, PartialEq, Eq)]
pub struct IObject {
    pub uid: String,
}

impl View for IObject {
    type V = Seq<char>;

    open spec fn view(&self) -> Seq<char> {
        self.uid@
    }
}

/// The map an association list denotes.
pub open spec fn assoc_map(entries: Seq<(String, IObject)>) -> Map<Seq<char>, Seq<char>>
    decreases entries.len(),
{
    if entries.len() == 0 {
        Map::empty()
    } else {
        assoc_map(entries.drop_last()).insert(entries.last().0@, entries.last().1@)
    }
}

/// Whether the keys of an association list are pairwise distinct.
pub open spec fn keys_unique(entries: Seq<(String, IObject)>) -> bool {
    forall|p: int, q: int|
        0 <= p < q < entries.len() ==> (#[trigger] entries[p]).0@ != (#[trigger] entries[q]).0@
}

proof fn lemma_assoc_absent(entries: Seq<(String, IObject)>, id: Seq<char>)
    requires
        forall|i: int| 0 <= i < entries.len() ==> (#[trigger] entries[i]).0@ != id,
    ensures
        !assoc_map(entries).contains_key(id),
    decreases entries.len(),
{
    if entries.len() > 0 {
        assert(entries.last() == entries[entries.len() - 1]);
        lemma_assoc_absent(entries.drop_last(), id);
    }
}

proof fn lemma_assoc_contains(entries: Seq<(String, IObject)>, id: Seq<char>)
    ensures
        assoc_map(entries).contains_key(id) <==> (exists|i: int|
            0 <= i < entries.len() && (#[trigger] entries[i]).0@ == id),
    decreases entries.len(),
{
    if entries.len() > 0 {
        lemma_assoc_contains(entries.drop_last(), id);
        assert(entries.last() == entries[entries.len() - 1]);
        if assoc_map(entries).contains_key(id) {
        } else {
            assert forall|i: int| 0 <= i < entries.len() implies (#[trigger] entries[i]).0@
                != id by {
                if i < entries.len() - 1 {
                    assert(entries.drop_last()[i] == entries[i]);
                }
            }
        }
    }
}

proof fn lemma_assoc_value(entries: Seq<(String, IObject)>, i: int)
    requires
        keys_unique(entries),
        0 <= i < entries.len(),
    ensures
        assoc_map(entries).contains_key(entries[i].0@),
        assoc_map(entries)[entries[i].0@] == entries[i].1@,
    decreases entries.len(),
{
    assert(entries.last() == entries[entries.len() - 1]);
    if i == entries.len() - 1 {
    } else {
        assert(entries.drop_last()[i] == entries[i]);
        lemma_assoc_value(entries.drop_last(), i);
        assert(entries[i].0@ != entries.last().0@);
    }
}

proof fn lemma_assoc_len(entries: Seq<(String, IObject)>)
    requires
        keys_unique(entries),
    ensures
        assoc_map(entries).len() == entries.len(),
        assoc_map(entries).dom().finite(),
    decreases entries.len(),
{
    if entries.len() > 0 {
        lemma_assoc_len(entries.drop_last());
        assert(entries.last() == entries[entries.len() - 1]);
        assert forall|i: int| 0 <= i < entries.drop_last().len() implies (
        #[trigger] entries.drop_last()[i]).0@ != entries.last().0@ by {
            assert(entries.drop_last()[i] == entries[i]);
        }
        lemma_assoc_absent(entries.drop_last(), entries.last().0@);
    }
}

proof fn lemma_assoc_remove(entries: Seq<(String, IObject)>, i: int)
    requires
        keys_unique(entries),
        0 <= i < entries.len(),
    ensures
        assoc_map(entries.remove(i)) == assoc_map(entries).remove(entries[i].0@),
        keys_unique(entries.remove(i)),
    decreases entries.len(),
{
    assert(entries.last() == entries[entries.len() - 1]);
    assert forall|p: int, q: int| 0 <= p < q < entries.remove(i).len() implies (
    #[trigger] entries.remove(i)[p]).0@ != (#[trigger] entries.remove(i)[q]).0@ by {
        let p0 = if p < i {
            p
        } else {
            p + 1
        };
        let q0 = if q < i {
            q
        } else {
            q + 1
        };
        assert(entries.remove(i)[p] == entries[p0]);
        assert(entries.remove(i)[q] == entries[q0]);
    }
    if i == entries.len() - 1 {
        assert(entries.remove(i) =~= entries.drop_last());
        assert forall|j: int| 0 <= j < entries.drop_last().len() implies (
        #[trigger] entries.drop_last()[j]).0@ != entries[i].0@ by {
            assert(entries.drop_last()[j] == entries[j]);
        }
        lemma_assoc_absent(entries.drop_last(), entries[i].0@);
        assert(assoc_map(entries.drop_last()).insert(entries.last().0@, entries.last().1@).remove(
            entries[i].0@,
        ) =~= assoc_map(entries.drop_last()));
    } else {
        let shorter = entries.drop_last();
        assert(entries.remove(i).drop_last() =~= shorter.remove(i));
        assert(entries.remove(i).last() == entries.last());
        assert forall|p: int, q: int| 0 <= p < q < shorter.len() implies (
        #[trigger] shorter[p]).0@ != (#[trigger] shorter[q]).0@ by {
            assert(shorter[p] == entries[p]);
            assert(shorter[q] == entries[q]);
        }
        assert(shorter[i] == entries[i]);
        lemma_assoc_remove(shorter, i);
        assert(entries[i].0@ != entries.last().0@);
        assert(assoc_map(shorter).remove(entries[i].0@).insert(entries.last().0@, entries.last().1@)
            =~= assoc_map(shorter).insert(entries.last().0@, entries.last().1@).remove(
            entries[i].0@,
        ));
        assert(assoc_map(entries.remove(i)) == assoc_map(shorter.remove(i)).insert(
            entries.last().0@,
            entries.last().1@,
        ));
    }
}

/// Find the index of an id in an association list.
fn assoc_find(entries: &Vec<(String, IObject)>, id: &str) -> (r: Option<usize>)
    ensures
        match r {
            Some(i) => i < entries@.len() && entries@[i as int].0@ == id@,
            None => forall|i: int| 0 <= i < entries@.len() ==> (#[trigger] entries@[i]).0@ != id@,
        },
{
    let mut k: usize = 0;
    while k < entries.len()
        invariant
            k <= entries@.len(),
            forall|i: int| 0 <= i < k ==> (#[trigger] entries@[i]).0@ != id@,
        decreases entries@.len() - k,
    {
        if str_eq(entries[k].0.as_str(), id) {
            return Some(k);
        }
        k += 1;
    }
    None
}

/// A catalog of prototype objects by key.
pub struct Factory {
    objects: Vec<(String, IObject)>,
}

impl Factory {
    /// The catalog this factory denotes.
    pub closed spec fn catalog(&self) -> Map<Seq<char>, Seq<char>> {
        assoc_map(self.objects@)
    }

    /// Well-formedness: catalog keys are unique.
    pub closed spec fn wf(&self) -> bool {
        keys_unique(self.objects@)
    }

    /// An empty factory.
    pub fn new() -> (r: Factory)
        ensures
            r.wf(),
            r.catalog() == Map::<Seq<char>, Seq<char>>::empty(),
    {
        Factory { objects: Vec::new() }
    }

    /// Register a prototype under a key, replacing any previous one.
    pub fn _register(&mut self, key: &str, object: IObject)
        requires
            old(self).wf(),
        ensures
            final(self).wf(),
            final(self).catalog() == old(self).catalog().insert(key@, object@),
    {
        match assoc_find(&self.objects, key) {
            Some(i) => {
                proof {
                    lemma_assoc_remove(self.objects@, i as int);
                }
                let ghost removed = self.objects@.remove(i as int);
                self.objects.remove(i);
                let ghost mid = self.objects@;
                self.objects.push((String::from_str(key), object));
                proof {
                    assert(self.objects@.drop_last() =~= mid);
                    assert(self.objects@.last().0@ == key@);
                    assert forall|p: int, q: int| 0 <= p < q < self.objects@.len() implies (
                    #[trigger] self.objects@[p]).0@ != (#[trigger] self.objects@[q]).0@ by {
                        if q < self.objects@.len() - 1 {
                        } else {
                            lemma_assoc_contains(mid, self.objects@[p].0@);
                            if self.objects@[p].0@ == key@ {
                                assert(mid[p] == self.objects@[p]);
                                assert(assoc_map(mid).contains_key(key@));
                                assert(!old(self).catalog().remove(key@).contains_key(key@));
                            }
                        }
                    }
                    assert(self.catalog() == assoc_map(mid).insert(key@, object@));
                    assert(assoc_map(mid).insert(key@, object@) =~= old(self).catalog().insert(
                        key@,
                        object@,
                    ));
                }
            },
            None => {
                let ghost before = self.objects@;
                self.objects.push((String::from_str(key), object));
                proof {
                    assert(self.objects@.drop_last() =~= before);
                    assert(self.objects@.last().0@ == key@);
                    assert forall|p: int, q: int| 0 <= p < q < self.objects@.len() implies (
                    #[trigger] self.objects@[p]).0@ != (#[trigger] self.objects@[q]).0@ by {
                        if q < self.objects@.len() - 1 {
                        } else {
                            assert(before[p] == self.objects@[p]);
                        }
                    }
                }
            },
        }
    }

    /// Look up the prototype registered under a key.
    pub fn create(&self, key: &str) -> (r: Option<&IObject>)
        requires
            self.wf(),
        ensures
            match r {
                Some(o) => self.catalog().contains_key(key@) && o@ == self.catalog()[key@],
                None => !self.catalog().contains_key(key@),
            },
    {
        match assoc_find(&self.objects, key) {
            Some(i) => {
                proof {
                    lemma_assoc_value(self.objects@, i as int);
                }
                Some(&self.objects[i].1)
            },
            None => {
                proof {
                    lemma_assoc_absent(self.objects@, key@);
                }
                None
            },
        }
    }
}

/// Keeps live and dangling objects by id; objects move between the two maps
/// and can be retrieved from either.
pub struct Manager {
    live_objects: Vec<(String, IObject)>,
    dangling_objects: Vec<(String, IObject)>,
}

impl Manager {
    /// The live objects this manager holds, by id.
    pub closed spec fn live(&self) -> Map<Seq<char>, Seq<char>> {
        assoc_map(self.live_objects@)
    }

    /// The dangling objects this manager holds, by id.
    pub closed spec fn dangling(&self) -> Map<Seq<char>, Seq<char>> {
        assoc_map(self.dangling_objects@)
    }

    /// Well-formedness: ids are unique within each map.
    pub closed spec fn wf(&self) -> bool {
        keys_unique(self.live_objects@) && keys_unique(self.dangling_objects@)
    }

    /// An empty manager.
    pub fn new() -> (r: Manager)
        ensures
            r.wf(),
            r.live() == Map::<Seq<char>, Seq<char>>::empty(),
            r.dangling() == Map::<Seq<char>, Seq<char>>::empty(),
    {
        Manager { live_objects: Vec::new(), dangling_objects: Vec::new() }
    }

    /// A copy of the live object with this id, if any.
    pub fn retrieve(&self, id: &str) -> (r: Option<IObject>)
        requires
            self.wf(),
        ensures
            match r {
                Some(o) => self.live().contains_key(id@) && o@ == self.live()[id@],
                None => !self.live().contains_key(id@),
            },
    {
        match assoc_find(&self.live_objects, id) {
            Some(i) => {
                proof {
                    lemma_assoc_value(self.live_objects@, i as int);
                }
                Some(IObject { uid: self.live_objects[i].1.uid.clone() })
            },
            None => {
                proof {
                    lemma_assoc_absent(self.live_objects@, id@);
                }
                None
            },
        }
    }

    /// A copy of the dangling object with this id, if any.
    pub fn retrieve_dangling(&self, id: &str) -> (r: Option<IObject>)
        requires
            self.wf(),
        ensures
            match r {
                Some(o) => self.dangling().contains_key(id@) && o@ == self.dangling()[id@],
                None => !self.dangling().contains_key(id@),
            },
    {
        match assoc_find(&self.dangling_objects, id) {
            Some(i) => {
                proof {
                    lemma_assoc_value(self.dangling_objects@, i as int);
                }
                Some(IObject { uid: self.dangling_objects[i].1.uid.clone() })
            },
            None => {
                proof {
                    lemma_assoc_absent(self.dangling_objects@, id@);
                }
                None
            },
        }
    }

    /// Register an object as live under an id, replacing any previous one.
    pub fn register(&mut self, id: &str, object: IObject)
        requires
            old(self).wf(),
        ensures
            final(self).wf(),
            final(self).live() == old(self).live().insert(id@, object@),
            final(self).dangling() == old(self).dangling(),
    {
        remove_entry(&mut self.live_objects, id);
        let ghost mid = self.live_objects@;
        self.live_objects.push((String::from_str(id), object));
        proof {
            assert(self.live_objects@.drop_last() =~= mid);
            assert(self.live_objects@.last().0@ == id@);
            assert forall|p: int, q: int| 0 <= p < q < self.live_objects@.len() implies (
            #[trigger] self.live_objects@[p]).0@ != (#[trigger] self.live_objects@[q]).0@ by {
                if q == self.live_objects@.len() - 1 {
                    assert(mid[p] == self.live_objects@[p]);
                }
            }
            assert(self.live() =~= old(self).live().insert(id@, object@));
        }
    }

    /// Move a live object to the dangling map.
    pub fn dangle(&mut self, id: &str) -> (r: Option<()>)
        requires
            old(self).wf(),
        ensures
            final(self).wf(),
            r is Some <==> old(self).live().contains_key(id@),
            old(self).live().contains_key(id@) ==> {
                &&& final(self).live() == old(self).live().remove(id@)
                &&& final(self).dangling() == old(self).dangling().insert(
                    id@,
                    old(self).live()[id@],
                )
            },
            !old(self).live().contains_key(id@) ==> final(self).live() == old(self).live()
                && final(self).dangling() == old(self).dangling(),
    {
        match take_entry(&mut self.live_objects, id) {
            Some(object) => {
                remove_entry(&mut self.dangling_objects, id);
                let ghost mid = self.dangling_objects@;
                self.dangling_objects.push((String::from_str(id), object));
                proof {
                    assert(self.dangling_objects@.drop_last() =~= mid);
                    assert forall|p: int, q: int| 0 <= p < q < self.dangling_objects@.len() implies
                        (#[trigger] self.dangling_objects@[p]).0@ != (
                    #[trigger] self.dangling_objects@[q]).0@ by {
                        if q == self.dangling_objects@.len() - 1 {
                            assert(mid[p] == self.dangling_objects@[p]);
                        }
                    }
                    assert(self.dangling() == assoc_map(mid).insert(id@, old(self).live()[id@]));
                    assert(self.dangling() =~= old(self).dangling().insert(
                        id@,
                        old(self).live()[id@],
                    ));
                }
                Some(())
            },
            None => None,
        }
    }

    /// Move a dangling object back to the live map.
    pub fn restore(&mut self, id: &str) -> (r: Option<()>)
        requires
            old(self).wf(),
        ensures
            final(self).wf(),
            r is Some <==> old(self).dangling().contains_key(id@),
            old(self).dangling().contains_key(id@) ==> {
                &&& final(self).dangling() == old(self).dangling().remove(id@)
                &&& final(self).live() == old(self).live().insert(
                    id@,
                    old(self).dangling()[id@],
                )
            },
            !old(self).dangling().contains_key(id@) ==> final(self).live() == old(self).live()
                && final(self).dangling() == old(self).dangling(),
    {
        match take_entry(&mut self.dangling_objects, id) {
            Some(object) => {
                remove_entry(&mut self.live_objects, id);
                let ghost mid = self.live_objects@;
                self.live_objects.push((String::from_str(id), object));
                proof {
                    assert(self.live_objects@.drop_last() =~= mid);
                    assert forall|p: int, q: int| 0 <= p < q < self.live_objects@.len() implies (
                    #[trigger] self.live_objects@[p]).0@ != (
                    #[trigger] self.live_objects@[q]).0@ by {
                        if q == self.live_objects@.len() - 1 {
                            assert(mid[p] == self.live_objects@[p]);
                        }
                    }
                    assert(self.live() == assoc_map(mid).insert(id@, old(self).dangling()[id@]));
                    assert(self.live() =~= old(self).live().insert(
                        id@,
                        old(self).dangling()[id@],
                    ));
                }
                Some(())
            },
            None => None,
        }
    }

    /// Remove and return the live object with this id.
    pub fn unregister(&mut self, id: &str) -> (r: Option<IObject>)
        requires
            old(self).wf(),
        ensures
            final(self).wf(),
            r is Some <==> old(self).live().contains_key(id@),
            match r {
                Some(o) => o@ == old(self).live()[id@] && final(self).live() == old(
                    self,
                ).live().remove(id@) && final(self).dangling() == old(self).dangling(),
                None => final(self).live() == old(self).live() && final(self).dangling() == old(
                    self,
                ).dangling(),
            },
    {
        take_entry(&mut self.live_objects, id)
    }

    /// Remove and return the dangling object with this id.
    pub fn remove_dangling(&mut self, id: &str) -> (r: Option<IObject>)
        requires
            old(self).wf(),
        ensures
            final(self).wf(),
            r is Some <==> old(self).dangling().contains_key(id@),
            match r {
                Some(o) => o@ == old(self).dangling()[id@] && final(self).dangling() == old(
                    self,
                ).dangling().remove(id@) && final(self).live() == old(self).live(),
                None => final(self).live() == old(self).live() && final(self).dangling() == old(
                    self,
                ).dangling(),
            },
    {
        take_entry(&mut self.dangling_objects, id)
    }

    /// How many live objects are held.
    pub fn live_count(&self) -> (r: usize)
        requires
            self.wf(),
        ensures
            r == self.live().len(),
    {
        proof {
            lemma_assoc_len(self.live_objects@);
        }
        self.live_objects.len()
    }

    /// How many dangling objects are held.
    pub fn dangling_count(&self) -> (r: usize)
        requires
            self.wf(),
        ensures
            r == self.dangling().len(),
    {
        proof {
            lemma_assoc_len(self.dangling_objects@);
        }
        self.dangling_objects.len()
    }
}

/// Remove the entry with this id, if present, and return its object.
fn take_entry(entries: &mut Vec<(String, IObject)>, id: &str) -> (r: Option<IObject>)
    requires
        keys_unique(old(entries)@),
    ensures
        keys_unique(final(entries)@),
        r is Some <==> assoc_map(old(entries)@).contains_key(id@),
        match r {
            Some(o) => o@ == assoc_map(old(entries)@)[id@] && assoc_map(final(entries)@)
                == assoc_map(old(entries)@).remove(id@),
            None => final(entries)@ == old(entries)@,
        },
{
    match assoc_find(entries, id) {
        Some(i) => {
            proof {
                lemma_assoc_value(entries@, i as int);
                lemma_assoc_remove(entries@, i as int);
            }
            let (_, object) = entries.remove(i);
            Some(object)
        },
        None => {
            proof {
                lemma_assoc_absent(entries@, id@);
            }
            None
        },
    }
}

/// Remove the entry with this id, if present.
fn remove_entry(entries: &mut Vec<(String, IObject)>, id: &str)
    requires
        keys_unique(old(entries)@),
    ensures
        keys_unique(final(entries)@),
        assoc_map(final(entries)@) == assoc_map(old(entries)@).remove(id@),
        forall|i: int| 0 <= i < final(entries)@.len() ==> (#[trigger] final(entries)@[i]).0@
            != id@,
{
    match assoc_find(entries, id) {
        Some(i) => {
            proof {
                lemma_assoc_remove(entries@, i as int);
            }
            let ghost before = entries@;
            entries.remove(i);
            proof {
                assert forall|j: int| 0 <= j < entries@.len() implies (
                #[trigger] entries@[j]).0@ != id@ by {
                    let j0 = if j < i {
                        j
                    } else {
                        j + 1
                    };
                    assert(entries@[j] == before[j0]);
                }
            }
        },
        None => {
            proof {
                lemma_assoc_absent(entries@, id@);
                assert(assoc_map(entries@).remove(id@) =~= assoc_map(entries@));
            }
        },
    }
}

} // verus!
