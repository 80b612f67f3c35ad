//! The in-memory key-value store the migration operates on: namespaces of
//! byte-keyed entries, named scalar cells, and the schema-version marker.
//!
//! The store stands in for the persistent ledger backend; it is handed to
//! every component explicitly, never reached through an ambient singleton.
//! Its abstract state is given by association sequences over byte-string
//! keys (see [`crate::assoc`]).

use vstd::prelude::*;

use crate::assoc::{
    assoc, distinct_keys, lemma_assoc_at, lemma_assoc_none, lemma_assoc_push_fresh,
    lemma_assoc_remove,
};
use crate::version::StorageVersion;

verus! {

/// One key-suffix/value pair stored under a namespace.  Both components are
/// opaque byte strings; the migration never interprets them.
pub struct Entry {
    pub suffix: Vec<u8>,
    pub value: Vec<u8>,
}

/// The entry set of one namespace.
pub struct Bucket {
    pub name: Vec<u8>,
    pub entries: Vec<Entry>,
}

/// A single named scalar value stored outside any namespace's entry set.
pub struct ScalarCell {
    pub name: Vec<u8>,
    pub value: u64,
}

/// The ledger store: namespace buckets, scalar cells, and the schema-version
/// marker (`None` while the marker cell was never written).
pub struct Store {
    pub buckets: Vec<Bucket>,
    pub scalars: Vec<ScalarCell>,
    pub version: Option<StorageVersion>,
}

/// Abstract form of one entry: its (key-suffix, value) byte strings.
pub open spec fn entry_view(e: Entry) -> (Seq<u8>, Seq<u8>) {
    (e.suffix@, e.value@)
}

/// Abstract form of one bucket: its name paired with its entry pairs.
pub open spec fn bucket_view(b: Bucket) -> (Seq<u8>, Seq<(Seq<u8>, Seq<u8>)>) {
    (b.name@, b.entries@.map_values(|e: Entry| entry_view(e)))
}

/// Abstract form of one scalar cell: its name paired with its value.
pub open spec fn cell_view(c: ScalarCell) -> (Seq<u8>, u64) {
    (c.name@, c.value)
}

impl Store {
    /// The namespace table as an association sequence.
    pub open spec fn ns_map(self) -> Seq<(Seq<u8>, Seq<(Seq<u8>, Seq<u8>)>)> {
        self.buckets@.map_values(|b: Bucket| bucket_view(b))
    }

    /// The scalar-cell table as an association sequence.
    pub open spec fn scalar_map(self) -> Seq<(Seq<u8>, u64)> {
        self.scalars@.map_values(|c: ScalarCell| cell_view(c))
    }

    /// The (key-suffix, value) pairs currently stored under namespace `ns`,
    /// in insertion order; empty for a namespace never written.
    pub open spec fn entries_of(self, ns: Seq<u8>) -> Seq<(Seq<u8>, Seq<u8>)> {
        match assoc(self.ns_map(), ns) {
            None => Seq::empty(),
            Some(es) => es,
        }
    }

    /// Number of entries currently stored under namespace `ns`.
    pub open spec fn count_of(self, ns: Seq<u8>) -> nat {
        self.entries_of(ns).len()
    }

    /// Value of scalar cell `name`; a cell never written reads as zero.
    pub open spec fn scalar_of(self, name: Seq<u8>) -> u64 {
        match assoc(self.scalar_map(), name) {
            None => 0u64,
            Some(v) => v,
        }
    }

    /// The stored schema-version marker, defaulting to the lowest known
    /// version while unset.
    pub open spec fn version_of(self) -> StorageVersion {
        match self.version {
            None => StorageVersion::V1,
            Some(v) => v,
        }
    }

    /// Well-formedness: namespace names are unique, scalar-cell names are
    /// unique, and within each namespace the key suffixes are unique.
    pub open spec fn wf(self) -> bool {
        &&& distinct_keys(self.ns_map())
        &&& distinct_keys(self.scalar_map())
        &&& forall|i: int|
            0 <= i < self.ns_map().len() ==> distinct_keys(#[trigger] self.ns_map()[i].1)
    }

    /// An empty store: no namespaces, no scalar cells, version marker unset.
    pub fn new() -> (r: Store)
        ensures
            r.wf(),
            r.ns_map() == Seq::<(Seq<u8>, Seq<(Seq<u8>, Seq<u8>)>)>::empty(),
            r.scalar_map() == Seq::<(Seq<u8>, u64)>::empty(),
            r.version_of() == StorageVersion::V1,
            forall|ns: Seq<u8>| #[trigger] r.entries_of(ns) == Seq::<(Seq<u8>, Seq<u8>)>::empty(),
            forall|name: Seq<u8>| #[trigger] r.scalar_of(name) == 0,
    {
        let r = Store { buckets: Vec::new(), scalars: Vec::new(), version: None };
        proof {
            assert(r.ns_map() =~= Seq::<(Seq<u8>, Seq<(Seq<u8>, Seq<u8>)>)>::empty());
            assert(r.scalar_map() =~= Seq::<(Seq<u8>, u64)>::empty());
        }
        r
    }

    /// Index of the bucket named `ns`, if one exists.
    fn find_bucket(&self, ns: &Vec<u8>) -> (r: Option<usize>)
        ensures
            match r {
                Some(i) => {
                    &&& i < self.buckets@.len()
                    &&& self.buckets@[i as int].name@ == ns@
                    &&& forall|j: int| 0 <= j < i ==> self.buckets@[j].name@ != ns@
                },
                None => forall|j: int| 0 <= j < self.buckets@.len() ==> self.buckets@[j].name@ != ns@,
            },
    {
        let mut i: usize = 0;
        while i < self.buckets.len()
            invariant
                i <= self.buckets@.len(),
                forall|j: int| 0 <= j < i ==> self.buckets@[j].name@ != ns@,
            decreases self.buckets@.len() - i,
        {
            if bytes_eq(&self.buckets[i].name, ns) {
                return Some(i);
            }
            i = i + 1;
        }
        None
    }

    /// Index of the scalar cell named `name`, if one exists.
    fn find_cell(&self, name: &Vec<u8>) -> (r: Option<usize>)
        ensures
            match r {
                Some(i) => {
                    &&& i < self.scalars@.len()
                    &&& self.scalars@[i as int].name@ == name@
                    &&& forall|j: int| 0 <= j < i ==> self.scalars@[j].name@ != name@
                },
                None => forall|j: int|
                    0 <= j < self.scalars@.len() ==> self.scalars@[j].name@ != name@,
            },
    {
        let mut i: usize = 0;
        while i < self.scalars.len()
            invariant
                i <= self.scalars@.len(),
                forall|j: int| 0 <= j < i ==> self.scalars@[j].name@ != name@,
            decreases self.scalars@.len() - i,
        {
            if bytes_eq(&self.scalars[i].name, name) {
                return Some(i);
            }
            i = i + 1;
        }
        None
    }

    /// Number of entries stored under namespace `ns`.
    pub fn count_entries(&self, ns: &Vec<u8>) -> (r: usize)
        ensures
            r == self.count_of(ns@),
    {
        match self.find_bucket(ns) {
            Some(i) => {
                proof {
                    lemma_assoc_at(self.ns_map(), ns@, i as int);
                }
                self.buckets[i].entries.len()
            },
            None => {
                proof {
                    lemma_assoc_none(self.ns_map(), ns@);
                }
                0
            },
        }
    }

    /// The key suffixes currently stored under namespace `ns`, copied out in
    /// storage order.
    pub fn iterate_keys(&self, ns: &Vec<u8>) -> (r: Vec<Vec<u8>>)
        ensures
            r@.map_values(|s: Vec<u8>| s@) == self.entries_of(ns@).map_values(
                |p: (Seq<u8>, Seq<u8>)| p.0,
            ),
    {
        match self.find_bucket(ns) {
            Some(i) => {
                proof {
                    lemma_assoc_at(self.ns_map(), ns@, i as int);
                }
                let ghost pairs = self.entries_of(ns@);
                let bucket = &self.buckets[i];
                let mut r: Vec<Vec<u8>> = Vec::new();
                let mut j: usize = 0;
                while j < bucket.entries.len()
                    invariant
                        j <= bucket.entries@.len(),
                        pairs == self.entries_of(ns@),
                        pairs == bucket.entries@.map_values(|x: Entry| entry_view(x)),
                        r@.len() == j as nat,
                        forall|l: int| 0 <= l < j ==> (#[trigger] r@[l])@ == pairs[l].0,
                    decreases bucket.entries@.len() - j,
                {
                    r.push(clone_bytes(&bucket.entries[j].suffix));
                    j = j + 1;
                }
                proof {
                    assert(r@.map_values(|s: Vec<u8>| s@) =~= pairs.map_values(
                        |p: (Seq<u8>, Seq<u8>)| p.0,
                    ));
                }
                r
            },
            None => {
                proof {
                    lemma_assoc_none(self.ns_map(), ns@);
                    assert(Seq::<Vec<u8>>::empty().map_values(|s: Vec<u8>| s@)
                        =~= self.entries_of(ns@).map_values(|p: (Seq<u8>, Seq<u8>)| p.0));
                }
                Vec::new()
            },
        }
    }

    /// The value stored under key-suffix `suffix` in namespace `ns`, copied
    /// out, or `None` if the namespace holds no such entry.
    pub fn get_entry(&self, ns: &Vec<u8>, suffix: &Vec<u8>) -> (r: Option<Vec<u8>>)
        ensures
            match r {
                Some(v) => assoc(self.entries_of(ns@), suffix@) == Some(v@),
                None => assoc(self.entries_of(ns@), suffix@) is None,
            },
    {
        match self.find_bucket(ns) {
            Some(i) => {
                proof {
                    lemma_assoc_at(self.ns_map(), ns@, i as int);
                }
                let ghost pairs = self.entries_of(ns@);
                let bucket = &self.buckets[i];
                let mut j: usize = 0;
                while j < bucket.entries.len()
                    invariant
                        j <= bucket.entries@.len(),
                        pairs == self.entries_of(ns@),
                        pairs == bucket.entries@.map_values(|x: Entry| entry_view(x)),
                        forall|l: int| 0 <= l < j ==> pairs[l].0 != suffix@,
                    decreases bucket.entries@.len() - j,
                {
                    if bytes_eq(&bucket.entries[j].suffix, suffix) {
                        proof {
                            assert(pairs[j as int] == entry_view(bucket.entries@[j as int]));
                            lemma_assoc_at(pairs, suffix@, j as int);
                        }
                        return Some(clone_bytes(&bucket.entries[j].value));
                    }
                    j = j + 1;
                }
                proof {
                    lemma_assoc_none(pairs, suffix@);
                }
                None
            },
            None => {
                proof {
                    lemma_assoc_none(self.ns_map(), ns@);
                    lemma_assoc_none(self.entries_of(ns@), suffix@);
                }
                None
            },
        }
    }

    /// Value of scalar cell `name`; a cell never written reads as zero.
    pub fn read_scalar(&self, name: &Vec<u8>) -> (r: u64)
        ensures
            r == self.scalar_of(name@),
    {
        match self.find_cell(name) {
            Some(i) => {
                proof {
                    lemma_assoc_at(self.scalar_map(), name@, i as int);
                }
                self.scalars[i].value
            },
            None => {
                proof {
                    lemma_assoc_none(self.scalar_map(), name@);
                }
                0
            },
        }
    }

    /// The stored schema-version marker, defaulting to the lowest known
    /// version while unset.
    pub fn current_version(&self) -> (r: StorageVersion)
        ensures
            r == self.version_of(),
    {
        match self.version {
            Some(v) => v,
            None => StorageVersion::V1,
        }
    }

    /// Store `value` under key-suffix `suffix` in namespace `ns`.  This is
    /// the population primitive of normal ledger operation; the key must be
    /// fresh in its namespace.  Every other namespace, all scalar cells and
    /// the version marker are untouched.
    pub fn insert_entry(&mut self, ns: &Vec<u8>, suffix: Vec<u8>, value: Vec<u8>)
        requires
            old(self).wf(),
            assoc(old(self).entries_of(ns@), suffix@) is None,
        ensures
            final(self).wf(),
            final(self).entries_of(ns@) == old(self).entries_of(ns@).push((suffix@, value@)),
            forall|n: Seq<u8>|
                n != ns@ ==> #[trigger] final(self).entries_of(n) == old(self).entries_of(n),
            forall|k: Seq<u8>| #[trigger] final(self).scalar_of(k) == old(self).scalar_of(k),
            final(self).version_of() == old(self).version_of(),
    {
        let ghost m0 = self.ns_map();
        let ghost e = (suffix@, value@);
        match self.find_bucket(ns) {
            Some(i) => {
                let ghost b0 = self.buckets@;
                let ghost pairs0 = m0[i as int].1;
                proof {
                    lemma_assoc_at(m0, ns@, i as int);
                }
                let mut b = self.buckets.remove(i);
                b.entries.push(Entry { suffix, value });
                self.buckets.push(b);
                proof {
                    let mid = m0.remove(i as int);
                    let m1 = self.ns_map();
                    b0.remove_ensures(i as int);
                    m0.remove_ensures(i as int);
                    assert(m1 =~= mid.push((ns@, pairs0.push(e)))) by {
                        assert(self.buckets@[m1.len() - 1].entries@.map_values(
                            |x: Entry| entry_view(x)) =~= pairs0.push(e));
                    }
                    lemma_assoc_remove(m0, mid, i as int);
                    assert(forall|j: int| 0 <= j < mid.len() ==> mid[j].0 != ns@) by {
                        lemma_assoc_none(mid, ns@);
                    }
                    lemma_assoc_push_fresh(mid, m1, (ns@, pairs0.push(e)));
                    assert(distinct_keys(pairs0.push(e))) by {
                        lemma_assoc_none(pairs0, e.0);
                        assert(forall|j: int|
                            0 <= j < pairs0.len() ==> #[trigger] pairs0.push(e)[j] == pairs0[j]);
                    }
                    assert forall|j: int|
                        0 <= j < m1.len() implies distinct_keys(#[trigger] m1[j].1) by {
                        if j < m1.len() - 1 {
                            assert(m1[j] == mid[j]);
                            if j < i {
                                assert(mid[j] == m0[j]);
                            } else {
                                assert(mid[j] == m0[j + 1]);
                            }
                        }
                    }
                }
            },
            None => {
                proof {
                    lemma_assoc_none(m0, ns@);
                }
                let name = clone_bytes(ns);
                let entries = vec![Entry { suffix, value }];
                self.buckets.push(Bucket { name, entries });
                proof {
                    let m1 = self.ns_map();
                    assert(m1 =~= m0.push((ns@, seq![e]))) by {
                        assert(self.buckets@[m1.len() - 1].entries@.map_values(
                            |x: Entry| entry_view(x)) =~= seq![e]);
                    }
                    lemma_assoc_push_fresh(m0, m1, (ns@, seq![e]));
                    assert(old(self).entries_of(ns@).push(e) =~= seq![e]);
                    assert forall|j: int|
                        0 <= j < m1.len() implies distinct_keys(#[trigger] m1[j].1) by {
                        if j < m1.len() - 1 {
                            assert(m1[j] == m0[j]);
                        }
                    }
                }
            },
        }
    }

    /// Move every entry stored under namespace `source` to namespace
    /// `target`, preserving key suffixes and value bytes exactly and leaving
    /// `source` empty.  The caller must guarantee that `target` holds no
    /// entries.  Returns the number of entries moved.
    pub fn move_all(&mut self, source: &Vec<u8>, target: &Vec<u8>) -> (moved: usize)
        requires
            old(self).wf(),
            source@ != target@,
            old(self).count_of(target@) == 0,
        ensures
            final(self).wf(),
            final(self).entries_of(target@) == old(self).entries_of(source@),
            final(self).entries_of(source@) == Seq::<(Seq<u8>, Seq<u8>)>::empty(),
            forall|n: Seq<u8>|
                n != source@ && n != target@
                    ==> #[trigger] final(self).entries_of(n) == old(self).entries_of(n),
            forall|k: Seq<u8>| #[trigger] final(self).scalar_of(k) == old(self).scalar_of(k),
            final(self).version_of() == old(self).version_of(),
            moved == old(self).count_of(source@),
    {
        let ghost m0 = self.ns_map();
        // Drop the target bucket if one exists; the precondition says it is
        // empty, so nothing is lost.
        match self.find_bucket(target) {
            Some(ti) => {
                proof {
                    lemma_assoc_at(m0, target@, ti as int);
                }
                let ghost b0 = self.buckets@;
                let _empty_bucket = self.buckets.remove(ti);
                proof {
                    b0.remove_ensures(ti as int);
                    m0.remove_ensures(ti as int);
                    assert(self.ns_map() =~= m0.remove(ti as int));
                    lemma_assoc_remove(m0, self.ns_map(), ti as int);
                    assert forall|j: int|
                        0 <= j < self.ns_map().len()
                            implies distinct_keys(#[trigger] self.ns_map()[j].1) by {
                        if j < ti {
                            assert(self.ns_map()[j] == m0[j]);
                        } else {
                            assert(self.ns_map()[j] == m0[j + 1]);
                        }
                    }
                }
            },
            None => {
                proof {
                    lemma_assoc_none(m0, target@);
                }
            },
        }
        let ghost mt = self.ns_map();
        proof {
            assert(assoc(mt, target@) is None);
            lemma_assoc_none(mt, target@);
        }
        // Relabel the source bucket to the target name.
        match self.find_bucket(source) {
            Some(si) => {
                let ghost b1 = self.buckets@;
                let ghost pairs = mt[si as int].1;
                proof {
                    lemma_assoc_at(mt, source@, si as int);
                    assert(assoc(m0, source@) == Some(pairs));
                }
                let mut b = self.buckets.remove(si);
                let moved = b.entries.len();
                b.name = clone_bytes(target);
                self.buckets.push(b);
                proof {
                    let mid = mt.remove(si as int);
                    let m1 = self.ns_map();
                    b1.remove_ensures(si as int);
                    mt.remove_ensures(si as int);
                    assert(m1 =~= mid.push((target@, pairs)));
                    lemma_assoc_remove(mt, mid, si as int);
                    assert(forall|j: int| 0 <= j < mid.len() ==> mid[j].0 != target@) by {
                        lemma_assoc_none(mid, target@);
                    }
                    lemma_assoc_push_fresh(mid, m1, (target@, pairs));
                    lemma_assoc_none(mid, source@);
                    assert(assoc(m1, source@) is None) by {
                        lemma_assoc_none(m1, source@);
                    }
                    // entries_of(source) in the original store is `pairs`.
                    assert(assoc(m0, source@) == Some(pairs));
                    assert forall|j: int|
                        0 <= j < m1.len() implies distinct_keys(#[trigger] m1[j].1) by {
                        if j < m1.len() - 1 {
                            assert(m1[j] == mid[j]);
                            if j < si {
                                assert(mid[j] == mt[j]);
                            } else {
                                assert(mid[j] == mt[j + 1]);
                            }
                        } else {
                            assert(m1[j].1 == mt[si as int].1);
                        }
                    }
                }
                moved
            },
            None => {
                proof {
                    lemma_assoc_none(mt, source@);
                    assert(assoc(m0, source@) == assoc(mt, source@));
                }
                0
            },
        }
    }

    /// Write `value` to scalar cell `name`, creating the cell if it never
    /// existed.  Every other cell, every namespace and the version marker are
    /// untouched.
    pub fn write_scalar(&mut self, name: &Vec<u8>, value: u64)
        requires
            old(self).wf(),
        ensures
            final(self).wf(),
            final(self).scalar_of(name@) == value,
            forall|k: Seq<u8>|
                k != name@ ==> #[trigger] final(self).scalar_of(k) == old(self).scalar_of(k),
            forall|n: Seq<u8>| #[trigger] final(self).entries_of(n) == old(self).entries_of(n),
            final(self).version_of() == old(self).version_of(),
    {
        let ghost m0 = self.scalar_map();
        match self.find_cell(name) {
            Some(i) => {
                let ghost s0 = self.scalars@;
                let mut c = self.scalars.remove(i);
                c.value = value;
                self.scalars.push(c);
                proof {
                    let mid = m0.remove(i as int);
                    let m1 = self.scalar_map();
                    s0.remove_ensures(i as int);
                    m0.remove_ensures(i as int);
                    assert(m1 =~= mid.push((name@, value)));
                    lemma_assoc_remove(m0, mid, i as int);
                    assert(forall|j: int| 0 <= j < mid.len() ==> mid[j].0 != name@) by {
                        lemma_assoc_none(mid, name@);
                    }
                    lemma_assoc_push_fresh(mid, m1, (name@, value));
                }
            },
            None => {
                self.scalars.push(ScalarCell { name: clone_bytes(name), value });
                proof {
                    let m1 = self.scalar_map();
                    assert(m1 =~= m0.push((name@, value)));
                    lemma_assoc_push_fresh(m0, m1, (name@, value));
                }
            },
        }
    }

    /// Write the schema-version marker.
    pub fn set_version(&mut self, v: StorageVersion)
        ensures
            final(self).version_of() == v,
            final(self).wf() == old(self).wf(),
            forall|n: Seq<u8>| #[trigger] final(self).entries_of(n) == old(self).entries_of(n),
            forall|k: Seq<u8>| #[trigger] final(self).scalar_of(k) == old(self).scalar_of(k),
    {
        self.version = Some(v);
    }
}

/// Byte-for-byte equality of two byte vectors.
pub fn bytes_eq(a: &Vec<u8>, b: &Vec<u8>) -> (r: bool)
    ensures
        r == (a@ == b@),
{
    if a.len() != b.len() {
        return false;
    }
    let mut i: usize = 0;
    while i < a.len()
        invariant
            i <= a@.len(),
            a@.len() == b@.len(),
            forall|j: int| 0 <= j < i ==> a@[j] == b@[j],
        decreases a@.len() - i,
    {
        if a[i] != b[i] {
            return false;
        }
        i = i + 1;
    }
    proof {
        assert(a@ =~= b@);
    }
    true
}

/// A fresh copy of a byte vector.
pub fn clone_bytes(v: &Vec<u8>) -> (r: Vec<u8>)
    ensures
        r@ == v@,
{
    let mut r: Vec<u8> = Vec::new();
    let mut i: usize = 0;
    while i < v.len()
        invariant
            i <= v@.len(),
            r@.len() == i as nat,
            forall|j: int| 0 <= j < i ==> r@[j] == v@[j],
        decreases v@.len() - i,
    {
        r.push(v[i]);
        i = i + 1;
    }
    proof {
        assert(r@ =~= v@);
    }
    r
}

} // verus!
