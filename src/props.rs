//! The raw property map: string keys to string values, the input of resolution.
use vstd::prelude::*;

verus! {

/// A map from property name to raw string value. Each name occurs once.
#[derive(Clone, Debug)]
pub struct Properties {
    entries: Vec<(String, String)>,
}

/// No two entries share a name.
pub open spec fn entry_names_unique(e: Seq<(String, String)>) -> bool {
    forall|i: int, j: int| 0 <= i < j < e.len() ==> #[trigger] e[i].0@ != #[trigger] e[j].0@
}

/// The map that a list of entries with unique names denotes.
pub open spec fn entries_map(e: Seq<(String, String)>) -> Map<Seq<char>, Seq<char>> {
    Map::new(
        |k: Seq<char>| exists|i: int| 0 <= i < e.len() && e[i].0@ == k,
        |k: Seq<char>| e[choose|i: int| 0 <= i < e.len() && e[i].0@ == k].1@,
    )
}

proof fn lemma_value_at(e: Seq<(String, String)>, i: int)
    requires
        entry_names_unique(e),
        0 <= i < e.len(),
    ensures
        entries_map(e).contains_key(e[i].0@),
        entries_map(e)[e[i].0@] == e[i].1@,
{
    let k = e[i].0@;
    assert(0 <= i < e.len() && e[i].0@ == k);
    let j = choose|j: int| 0 <= j < e.len() && e[j].0@ == k;
    if j < i {
        assert(e[j].0@ != e[i].0@);
    }
    if i < j {
        assert(e[i].0@ != e[j].0@);
    }
}

impl View for Properties {
    type V = Map<Seq<char>, Seq<char>>;

    closed spec fn view(&self) -> Map<Seq<char>, Seq<char>> {
        entries_map(self.entries@)
    }
}

impl Properties {
    /// Each name occurs once.
    pub closed spec fn wf(&self) -> bool {
        entry_names_unique(self.entries@)
    }

    /// An empty map.
    pub fn new() -> (r: Self)
        ensures
            r.wf(),
            r@ == Map::<Seq<char>, Seq<char>>::empty(),
    {
        let r = Properties { entries: Vec::new() };
        proof {
            assert(r@ =~= Map::<Seq<char>, Seq<char>>::empty());
        }
        r
    }

    /// The position of the entry named `key`, if there is one.
    fn position(&self, key: &str) -> (r: Option<usize>)
        ensures
            match r {
                Some(i) => i < self.entries@.len() && self.entries@[i as int].0@ == key@,
                None => forall|i: int|
                    0 <= i < self.entries@.len() ==> self.entries@[i].0@ != key@,
            },
    {
        let target = key.to_owned();
        let mut i: usize = 0;
        while i < self.entries.len()
            invariant
                i <= self.entries@.len(),
                target@ == key@,
                forall|j: int| 0 <= j < i ==> self.entries@[j].0@ != key@,
            decreases self.entries@.len() - i,
        {
            if self.entries[i].0 == target {
                return Some(i);
            }
            i = i + 1;
        }
        None
    }

    /// The value of the property `key`.
    pub fn get(&self, key: &str) -> (r: Option<&String>)
        requires
            self.wf(),
        ensures
            match r {
                Some(v) => self@.contains_key(key@) && self@[key@] == v@,
                None => !self@.contains_key(key@),
            },
    {
        match self.position(key) {
            Some(i) => {
                proof {
                    lemma_value_at(self.entries@, i as int);
                }
                Some(&self.entries[i].1)
            },
            None => None,
        }
    }

    /// Sets the property `key` to `value`, replacing an earlier value.
    pub fn insert(&mut self, key: String, value: String)
        requires
            old(self).wf(),
        ensures
            final(self).wf(),
            final(self)@ == old(self)@.insert(key@, value@),
    {
        let ghost old_entries = self.entries@;
        let ghost k = key@;
        let ghost v = value@;
        match self.position(key.as_str()) {
            Some(i) => {
                self.entries.remove(i);
            },
            None => {},
        }
        let ghost kept = self.entries@;
        self.entries.push((key, value));
        let ghost e = self.entries@;
        proof {
            assert forall|a: int| 0 <= a < kept.len() implies #[trigger] kept[a].0@ != k
                && exists|b: int| 0 <= b < old_entries.len() && old_entries[b] == kept[a] by {
                if kept.len() < old_entries.len() {
                    let i = choose|i: int|
                        0 <= i < old_entries.len() && old_entries[i].0@ == k && kept
                            == old_entries.remove(i);
                    if a < i {
                        assert(old_entries[a] == kept[a]);
                        assert(old_entries[a].0@ != old_entries[i].0@);
                    } else {
                        assert(old_entries[a + 1] == kept[a]);
                        assert(old_entries[i].0@ != old_entries[a + 1].0@);
                    }
                } else {
                    assert(old_entries[a] == kept[a]);
                }
            }
            assert(entry_names_unique(e)) by {
                assert forall|a: int, b: int| 0 <= a < b < e.len() implies #[trigger] e[a].0@
                    != #[trigger] e[b].0@ by {
                    if b < kept.len() {
                        assert(kept[a] == e[a] && kept[b] == e[b]);
                        let ia = choose|x: int| 0 <= x < old_entries.len() && old_entries[x] == kept[a];
                        let ib = choose|x: int| 0 <= x < old_entries.len() && old_entries[x] == kept[b];
                        if kept.len() < old_entries.len() {
                            let i = choose|i: int|
                                0 <= i < old_entries.len() && old_entries[i].0@ == k && kept
                                    == old_entries.remove(i);
                            let xa = if a < i { a } else { a + 1 };
                            let xb = if b < i { b } else { b + 1 };
                            assert(old_entries[xa] == kept[a] && old_entries[xb] == kept[b]);
                            assert(old_entries[xa].0@ != old_entries[xb].0@);
                        } else {
                            assert(old_entries[a] == kept[a] && old_entries[b] == kept[b]);
                        }
                    } else {
                        assert(e[a] == kept[a]);
                    }
                }
            }
            let m = entries_map(e);
            let target = entries_map(old_entries).insert(k, v);
            assert forall|q: Seq<char>| #[trigger] m.contains_key(q) == target.contains_key(q) by {
                if m.contains_key(q) {
                    let a = choose|a: int| 0 <= a < e.len() && e[a].0@ == q;
                    if a < kept.len() {
                        assert(e[a] == kept[a]);
                        let b = choose|b: int| 0 <= b < old_entries.len() && old_entries[b] == kept[a];
                        assert(old_entries[b].0@ == q);
                    }
                }
                if target.contains_key(q) && q != k {
                    let b = choose|b: int| 0 <= b < old_entries.len() && old_entries[b].0@ == q;
                    if kept.len() < old_entries.len() {
                        let i = choose|i: int|
                            0 <= i < old_entries.len() && old_entries[i].0@ == k && kept
                                == old_entries.remove(i);
                        assert(b != i);
                        let a = if b < i { b } else { b - 1 };
                        assert(kept[a] == old_entries[b]);
                        assert(e[a] == kept[a]);
                    } else {
                        assert(kept[b] == old_entries[b]);
                        assert(e[b] == kept[b]);
                    }
                }
                if q == k {
                    assert(e[e.len() - 1].0@ == k);
                }
            }
            assert forall|q: Seq<char>| #[trigger] m.contains_key(q) implies m[q] == target[q] by {
                let a = choose|a: int| 0 <= a < e.len() && e[a].0@ == q;
                lemma_value_at(e, a);
                if a < kept.len() {
                    assert(e[a] == kept[a]);
                    let b = choose|b: int| 0 <= b < old_entries.len() && old_entries[b] == kept[a];
                    lemma_value_at(old_entries, b);
                } else {
                    assert(q == k);
                }
            }
            assert(m =~= target);
        }
    }
}

} // verus!
