//! Free-form extension payloads: an explicit key-value map with a
//! deterministic shallow-union merge, where incoming values win on a key
//! collision.

use vstd::prelude::*;

verus! {

/// One key-value pair of an extension payload.
pub struct BlobEntry {
    pub key: String,
    pub value: String,
}

impl Clone for BlobEntry {
    fn clone(&self) -> (r: Self)
        ensures
            r.key@ == self.key@,
            r.value@ == self.value@,
    {
        BlobEntry { key: self.key.clone(), value: self.value.clone() }
    }
}

/// The map denoted by a list of entries; a later entry overrides an earlier
/// one with the same key.
pub open spec fn map_of(es: Seq<(Seq<char>, Seq<char>)>) -> Map<Seq<char>, Seq<char>>
    decreases es.len(),
{
    if es.len() == 0 {
        Map::empty()
    } else {
        map_of(es.drop_last()).insert(es.last().0, es.last().1)
    }
}

/// A free-form key-value payload with unique keys.
pub struct Blob {
    pub entries: Vec<BlobEntry>,
}

impl Blob {
    /// The entries as pairs of character sequences.
    pub open spec fn entry_seq(self) -> Seq<(Seq<char>, Seq<char>)> {
        self.entries@.map_values(|e: BlobEntry| (e.key@, e.value@))
    }

    /// Keys occur at most once.
    pub open spec fn wf(self) -> bool {
        forall|i: int, j: int|
            0 <= i < j < self.entries@.len() ==> (#[trigger] self.entries@[i]).key@ != (
            #[trigger] self.entries@[j]).key@
    }

    /// An empty payload.
    pub fn new() -> (r: Blob)
        ensures
            r.wf(),
            r@ == Map::<Seq<char>, Seq<char>>::empty(),
            r.entries@.len() == 0,
    {
        Blob { entries: Vec::new() }
    }

    /// Index of the entry holding `key`, if any.
    #[verifier::loop_isolation(false)]
    fn find_key(&self, key: &str) -> (r: Option<usize>)
        ensures
            r matches Some(i) ==> i < self.entries@.len() && self.entries@[i as int].key@ == key@,
            r is None ==> forall|i: int|
                0 <= i < self.entries@.len() ==> (#[trigger] self.entries@[i]).key@ != key@,
    {
        let n = self.entries.len();
        let mut i: usize = 0;
        while i < n
            invariant
                0 <= i <= n,
                forall|j: int| 0 <= j < i ==> (#[trigger] self.entries@[j]).key@ != key@,
            decreases n - i,
        {
            if crate::strutil::str_eq(self.entries[i].key.as_str(), key) {
                return Some(i);
            }
            i += 1;
        }
        None
    }

    /// Whether `key` is present.
    pub fn contains_key(&self, key: &str) -> (r: bool)
        requires
            self.wf(),
        ensures
            r == self@.contains_key(key@),
    {
        let found = self.find_key(key);
        proof {
            lemma_map_of_index(self.entry_seq());
            if found is Some {
                let i = found.unwrap() as int;
                assert(self.entry_seq()[i].0 == key@);
            } else {
                if self@.contains_key(key@) {
                    let i = choose|i: int|
                        0 <= i < self.entry_seq().len() && (#[trigger] self.entry_seq()[i]).0
                            == key@;
                    assert(self.entries@[i].key@ == key@);
                }
            }
        }
        match found {
            Some(_) => true,
            None => false,
        }
    }

    /// The value stored under `key`, if any.
    pub fn get(&self, key: &str) -> (r: Option<&String>)
        requires
            self.wf(),
        ensures
            r matches Some(v) ==> self@.contains_key(key@) && v@ == self@[key@],
            r is None ==> !self@.contains_key(key@),
    {
        let found = self.find_key(key);
        proof {
            lemma_map_of_index(self.entry_seq());
            if found is Some {
                let i = found.unwrap() as int;
                assert(self.entry_seq()[i].0 == key@);
                lemma_map_of_unique_value(self.entry_seq(), i);
            } else {
                if self@.contains_key(key@) {
                    let i = choose|i: int|
                        0 <= i < self.entry_seq().len() && (#[trigger] self.entry_seq()[i]).0
                            == key@;
                    assert(self.entries@[i].key@ == key@);
                }
            }
        }
        match found {
            Some(i) => Some(&self.entries[i].value),
            None => None,
        }
    }

    /// Insert or replace one key.
    pub fn insert(&mut self, key: String, value: String)
        requires
            old(self).wf(),
        ensures
            final(self).wf(),
            final(self)@ == old(self)@.insert(key@, value@),
    {
        let found = self.find_key(key.as_str());
        let ghost es = self.entry_seq();
        match found {
            Some(i) => {
                let ghost old_entries = self.entries@;
                self.entries.set(i, BlobEntry { key, value });
                proof {
                    assert(self.entry_seq() =~= es.update(i as int, (key@, value@)));
                    lemma_map_of_update(es, i as int, key@, value@);
                    assert forall|a: int, b: int|
                        0 <= a < b < self.entries@.len() implies (
                    #[trigger] self.entries@[a]).key@ != (#[trigger] self.entries@[b]).key@ by {
                        assert(old_entries[a].key@ != old_entries[b].key@);
                    }
                }
            },
            None => {
                self.entries.push(BlobEntry { key, value });
                proof {
                    assert(self.entry_seq().drop_last() =~= es);
                    assert(self.entry_seq().last() == (key@, value@));
                    let n = self.entries@.len() as int;
                    assert forall|a: int, b: int| 0 <= a < b < n implies (
                    #[trigger] self.entries@[a]).key@ != (#[trigger] self.entries@[b]).key@ by {
                        if b < n - 1 {
                        } else {
                            assert(self.entries@[a].key@ != key@);
                        }
                    }
                }
            },
        }
    }

    /// Number of stored keys.
    pub fn len(&self) -> (r: usize)
        ensures
            r == self.entries@.len(),
    {
        self.entries.len()
    }
}

impl View for Blob {
    type V = Map<Seq<char>, Seq<char>>;

    open spec fn view(&self) -> Map<Seq<char>, Seq<char>> {
        map_of(self.entry_seq())
    }
}

impl Clone for Blob {
    /// Cloning preserves the entries exactly.
    fn clone(&self) -> (r: Self)
        ensures
            r.entry_seq() == self.entry_seq(),
            r@ == self@,
            r.wf() == self.wf(),
    {
        let mut entries: Vec<BlobEntry> = Vec::new();
        let n = self.entries.len();
        let mut i: usize = 0;
        #[verifier::loop_isolation(false)]
        while i < n
            invariant
                0 <= i <= n,
                entries@.len() == i,
                forall|j: int|
                    0 <= j < i ==> (#[trigger] entries@[j]).key@ == self.entries@[j].key@ && (
                    #[trigger] entries@[j]).value@ == self.entries@[j].value@,
            decreases n - i,
        {
            entries.push(self.entries[i].clone());
            i += 1;
        }
        let r = Blob { entries };
        proof {
            assert(r.entry_seq() =~= self.entry_seq());
            assert(r.wf() == self.wf()) by {
                if self.wf() {
                    assert forall|a: int, b: int|
                        0 <= a < b < r.entries@.len() implies (#[trigger] r.entries@[a]).key@ != (
                    #[trigger] r.entries@[b]).key@ by {
                        assert(self.entries@[a].key@ != self.entries@[b].key@);
                    }
                } else {
                    let (a, b) = choose|a: int, b: int|
                        0 <= a < b < self.entries@.len() && (#[trigger] self.entries@[a]).key@ == (
                        #[trigger] self.entries@[b]).key@;
                    assert(r.entries@[a].key@ == r.entries@[b].key@);
                }
            }
        }
        r
    }
}

/// Every key of the denoted map is the key of some entry, and every entry
/// contributes its key.
pub proof fn lemma_map_of_index(es: Seq<(Seq<char>, Seq<char>)>)
    ensures
        forall|i: int| 0 <= i < es.len() ==> map_of(es).contains_key((#[trigger] es[i]).0),
        forall|k: Seq<char>|
            #[trigger] map_of(es).contains_key(k) ==> exists|i: int|
                0 <= i < es.len() && (#[trigger] es[i]).0 == k,
    decreases es.len(),
{
    if es.len() > 0 {
        lemma_map_of_index(es.drop_last());
        assert forall|i: int| 0 <= i < es.len() implies map_of(es).contains_key(
            (#[trigger] es[i]).0,
        ) by {
            if i < es.len() - 1 {
                assert(es.drop_last()[i] == es[i]);
                assert(map_of(es.drop_last()).contains_key(es[i].0));
            } else {
                assert(es.last() == es[i]);
            }
        }
        assert forall|k: Seq<char>| #[trigger] map_of(es).contains_key(k) implies exists|i: int|
            0 <= i < es.len() && (#[trigger] es[i]).0 == k by {
            if k == es.last().0 {
                assert(es[es.len() - 1].0 == k);
            } else {
                assert(map_of(es.drop_last()).contains_key(k));
                let i = choose|i: int|
                    0 <= i < es.drop_last().len() && (#[trigger] es.drop_last()[i]).0 == k;
                assert(es[i].0 == k);
            }
        }
    }
}

/// With unique keys, the denoted map holds each entry's own value.
pub proof fn lemma_map_of_unique_value(es: Seq<(Seq<char>, Seq<char>)>, i: int)
    requires
        0 <= i < es.len(),
        forall|a: int, b: int| 0 <= a < b < es.len() ==> (#[trigger] es[a]).0 != (#[trigger] es[b]).0,
    ensures
        map_of(es).contains_key(es[i].0),
        map_of(es)[es[i].0] == es[i].1,
    decreases es.len(),
{
    lemma_map_of_index(es);
    if i == es.len() - 1 {
    } else {
        assert forall|a: int, b: int|
            0 <= a < b < es.drop_last().len() implies (#[trigger] es.drop_last()[a]).0 != (
        #[trigger] es.drop_last()[b]).0 by {
            assert(es[a].0 != es[b].0);
        }
        lemma_map_of_unique_value(es.drop_last(), i);
        assert(es.drop_last()[i] == es[i]);
        assert(es[i].0 != es.last().0);
    }
}

/// Updating an entry in place denotes inserting its key.
proof fn lemma_map_of_update(es: Seq<(Seq<char>, Seq<char>)>, i: int, k: Seq<char>, v: Seq<char>)
    requires
        0 <= i < es.len(),
        es[i].0 == k,
        forall|a: int, b: int| 0 <= a < b < es.len() ==> (#[trigger] es[a]).0 != (#[trigger] es[b]).0,
    ensures
        map_of(es.update(i, (k, v))) == map_of(es).insert(k, v),
    decreases es.len(),
{
    let up = es.update(i, (k, v));
    if i == es.len() - 1 {
        assert(up.drop_last() =~= es.drop_last());
        assert(up.last() == (k, v));
        assert(map_of(up) == map_of(es.drop_last()).insert(k, v));
        assert(map_of(es.drop_last()).insert(es.last().0, es.last().1).insert(k, v) =~= map_of(
            es.drop_last(),
        ).insert(k, v));
    } else {
        assert forall|a: int, b: int|
            0 <= a < b < es.drop_last().len() implies (#[trigger] es.drop_last()[a]).0 != (
        #[trigger] es.drop_last()[b]).0 by {
            assert(es[a].0 != es[b].0);
        }
        assert(es.drop_last()[i] == es[i]);
        lemma_map_of_update(es.drop_last(), i, k, v);
        assert(up.drop_last() =~= es.drop_last().update(i, (k, v)));
        assert(up.last() == es.last());
        assert(map_of(up) == map_of(es.drop_last()).insert(k, v).insert(es.last().0, es.last().1));
        assert(es.last().0 != k);
        assert(map_of(es.drop_last()).insert(k, v).insert(es.last().0, es.last().1) =~= map_of(
            es.drop_last(),
        ).insert(es.last().0, es.last().1).insert(k, v));
    }
}

/// Shallow union of two payloads: all keys of both, the incoming value
/// winning where a key occurs on both sides.
pub fn blob_union(base: &Blob, incoming: &Blob) -> (r: Blob)
    requires
        base.wf(),
        incoming.wf(),
    ensures
        r.wf(),
        r@ == base@.union_prefer_right(incoming@),
{
    let mut r = base.clone();
    let n = incoming.entries.len();
    let mut i: usize = 0;
    #[verifier::loop_isolation(false)]
    while i < n
        invariant
            0 <= i <= n,
            r.wf(),
            r@ == base@.union_prefer_right(map_of(incoming.entry_seq().take(i as int))),
        decreases n - i,
    {
        let ghost pre = incoming.entry_seq().take(i as int);
        let ghost ext = incoming.entry_seq().take(i + 1);
        proof {
            assert(ext.drop_last() =~= pre);
            assert(ext.last() == incoming.entry_seq()[i as int]);
        }
        let e = &incoming.entries[i];
        r.insert(e.key.clone(), e.value.clone());
        proof {
            assert(base@.union_prefer_right(map_of(pre)).insert(e.key@, e.value@)
                =~= base@.union_prefer_right(map_of(pre).insert(e.key@, e.value@)));
        }
        i += 1;
    }
    proof {
        assert(incoming.entry_seq().take(n as int) =~= incoming.entry_seq());
    }
    r
}

/// Merging the same payload twice is the same as merging it once.
pub proof fn lemma_union_idempotent(base: Map<Seq<char>, Seq<char>>, inc: Map<Seq<char>, Seq<char>>)
    ensures
        base.union_prefer_right(inc).union_prefer_right(inc) == base.union_prefer_right(inc),
{
    assert(base.union_prefer_right(inc).union_prefer_right(inc) =~= base.union_prefer_right(inc));
}

/// The union holds every key of both sides and no others; incoming values
/// win on collisions and stored values survive everywhere else.
pub proof fn lemma_union_shallow(base: Map<Seq<char>, Seq<char>>, inc: Map<Seq<char>, Seq<char>>)
    ensures
        forall|k: Seq<char>|
            base.union_prefer_right(inc).contains_key(k) <==> base.contains_key(k)
                || inc.contains_key(k),
        forall|k: Seq<char>| #[trigger]
            inc.contains_key(k) ==> base.union_prefer_right(inc)[k] == inc[k],
        forall|k: Seq<char>| #[trigger]
            base.contains_key(k) && !inc.contains_key(k) ==> base.union_prefer_right(inc)[k]
                == base[k],
{
}

} // verus!
