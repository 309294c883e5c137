//! The types the parser has seen given to each identifier.

use vstd::prelude::*;

use crate::semantic_analyzer::function::string_eq;
use crate::semantic_analyzer::types::Types;

verus! {

/// The map an association list stands for: a later entry wins over an
/// earlier one of the same name.
pub open spec fn assoc(s: Seq<(String, Types)>) -> Map<Seq<char>, Types>
    decreases s.len(),
{
    if s.len() == 0 {
        Map::empty()
    } else {
        assoc(s.drop_last()).insert(s.last().0@, s.last().1)
    }
}

/// No two entries of `s` share a name.
pub open spec fn distinct_keys(s: Seq<(String, Types)>) -> bool {
    forall|i: int, j: int| 0 <= i < j < s.len() ==> (#[trigger] s[i]).0@ != (#[trigger] s[j]).0@
}

/// In a list without repeated names, the map holds exactly the names of the
/// entries, each with the type of its entry.
proof fn lemma_assoc(s: Seq<(String, Types)>)
    requires
        distinct_keys(s),
    ensures
        forall|k: Seq<char>| assoc(s).contains_key(k) <==> exists|i: int| 0 <= i < s.len() && (#[trigger] s[i]).0@ == k,
        forall|i: int| 0 <= i < s.len() ==> #[trigger] assoc(s)[s[i].0@] == s[i].1,
    decreases s.len(),
{
    if s.len() > 0 {
        let p = s.drop_last();
        let n = s.len() - 1;
        let last = s[n];
        assert forall|i: int| 0 <= i < p.len() implies #[trigger] p[i] == s[i] by {}
        assert(distinct_keys(p)) by {
            assert forall|i: int, j: int| 0 <= i < j < p.len() implies (#[trigger] p[i]).0@ != (#[trigger] p[j]).0@ by {
                assert(p[i] == s[i] && p[j] == s[j]);
            }
        }
        lemma_assoc(p);
        assert(assoc(s) == assoc(p).insert(last.0@, last.1));
        assert forall|k: Seq<char>| assoc(s).contains_key(k) implies exists|i: int| 0 <= i < s.len() && (#[trigger] s[i]).0@ == k by {
            if k != last.0@ {
                assert(assoc(p).contains_key(k));
                let i = choose|i: int| 0 <= i < p.len() && (#[trigger] p[i]).0@ == k;
                assert(p[i] == s[i]);
                assert(0 <= i < s.len() && s[i].0@ == k);
            } else {
                assert(0 <= n < s.len() && s[n].0@ == k);
            }
        }
        assert forall|k: Seq<char>| (exists|i: int| 0 <= i < s.len() && (#[trigger] s[i]).0@ == k) implies assoc(s).contains_key(k) by {
            let i = choose|i: int| 0 <= i < s.len() && (#[trigger] s[i]).0@ == k;
            if i < n {
                assert(p[i] == s[i]);
                assert(0 <= i < p.len() && p[i].0@ == k);
                assert(assoc(p).contains_key(k));
            }
        }
        assert forall|i: int| 0 <= i < s.len() implies #[trigger] assoc(s)[s[i].0@] == s[i].1 by {
            if i < n {
                assert(p[i] == s[i]);
                assert(s[i].0@ != s[n].0@);
                assert(assoc(p)[p[i].0@] == p[i].1);
            }
        }
    }
}

/// Types given to identifiers, by name.
#[derive(Debug)]
pub struct IdentifierTable {
    entries: Vec<(String, Types)>,
}

impl View for IdentifierTable {
    type V = Map<Seq<char>, Types>;

    closed spec fn view(&self) -> Map<Seq<char>, Types> {
        assoc(self.entries@)
    }
}

impl IdentifierTable {
    #[verifier::type_invariant]
    spec fn inv(self) -> bool {
        distinct_keys(self.entries@)
    }

    /// The table that knows no identifier.
    pub fn new() -> (res: IdentifierTable)
        ensures
            res@ == Map::<Seq<char>, Types>::empty(),
    {
        IdentifierTable { entries: Vec::new() }
    }

    /// Where the entry named `name` stands, if there is one.
    fn position(&self, name: &str) -> (res: Option<usize>)
        ensures
            match res {
                Some(i) => i < self.entries@.len() && self.entries@[i as int].0@ == name@,
                None => forall|i: int| 0 <= i < self.entries@.len() ==> (#[trigger] self.entries@[i]).0@ != name@,
            },
    {
        let mut i: usize = 0;
        while i < self.entries.len()
            invariant
                i <= self.entries@.len(),
                forall|j: int| 0 <= j < i ==> (#[trigger] self.entries@[j]).0@ != name@,
            decreases self.entries@.len() - i,
        {
            if string_eq(&self.entries[i].0, name) {
                return Some(i);
            }
            i = i + 1;
        }
        None
    }

    /// The type given to `name`, if any.
    pub fn get(&self, name: &str) -> (res: Option<Types>)
        ensures
            res == (if self@.contains_key(name@) { Some(self@[name@]) } else { None::<Types> }),
    {
        proof {
            use_type_invariant(self);
            lemma_assoc(self.entries@);
        }
        match self.position(name) {
            Some(i) => Some(self.entries[i].1),
            None => None,
        }
    }

    /// Whether `name` has a type.
    pub fn contains_key(&self, name: &str) -> (res: bool)
        ensures
            res == self@.contains_key(name@),
    {
        self.get(name).is_some()
    }

    /// Gives `name` the type `t`; the type it had before, if any.
    pub fn insert(&mut self, name: String, t: Types) -> (res: Option<Types>)
        ensures
            final(self)@ == old(self)@.insert(name@, t),
            res == (if old(self)@.contains_key(name@) { Some(old(self)@[name@]) } else { None::<Types> }),
    {
        proof {
            use_type_invariant(&*self);
            lemma_assoc(self.entries@);
        }
        let ghost before = self.entries@;
        let found = self.position(name.as_str());
        match found {
            Some(i) => {
                let previous = self.entries[i].1;
                let ghost key = name@;
                let mut entries: Vec<(String, Types)> = Vec::new();
                std::mem::swap(&mut entries, &mut self.entries);
                entries.set(i, (name, t));
                proof {
                    let after = entries@;
                    assert(after == before.update(i as int, after[i as int]));
                    assert(distinct_keys(after)) by {
                        assert forall|a: int, b: int| 0 <= a < b < after.len() implies (#[trigger] after[a]).0@ != (#[trigger] after[b]).0@ by {
                            if a != i && b != i {
                                assert(before[a] == after[a] && before[b] == after[b]);
                            } else if a == i {
                                assert(before[b] == after[b]);
                            } else {
                                assert(before[a] == after[a]);
                            }
                        }
                    }
                    lemma_assoc(after);
                    assert(assoc(after) =~= assoc(before).insert(key, t)) by {
                        assert forall|k: Seq<char>| #[trigger] assoc(after).contains_key(k) == assoc(before).insert(key, t).contains_key(k) by {
                            if assoc(after).contains_key(k) {
                                let j = choose|j: int| 0 <= j < after.len() && (#[trigger] after[j]).0@ == k;
                                if j != i {
                                    assert(before[j] == after[j]);
                                }
                            }
                            if assoc(before).contains_key(k) && k != key {
                                let j = choose|j: int| 0 <= j < before.len() && (#[trigger] before[j]).0@ == k;
                                assert(j != i);
                                assert(before[j] == after[j]);
                            }
                            if k == key {
                                assert(after[i as int].0@ == k);
                            }
                        }
                        assert forall|k: Seq<char>| #[trigger] assoc(after).contains_key(k) implies assoc(after)[k] == assoc(before).insert(key, t)[k] by {
                            let j = choose|j: int| 0 <= j < after.len() && (#[trigger] after[j]).0@ == k;
                            if j != i {
                                assert(before[j] == after[j]);
                            }
                        }
                    }
                }
                self.entries = entries;
                Some(previous)
            },
            None => {
                let mut entries: Vec<(String, Types)> = Vec::new();
                std::mem::swap(&mut entries, &mut self.entries);
                entries.push((name, t));
                proof {
                    let after = entries@;
                    assert(after.drop_last() =~= before);
                    assert(distinct_keys(after)) by {
                        assert forall|a: int, b: int| 0 <= a < b < after.len() implies (#[trigger] after[a]).0@ != (#[trigger] after[b]).0@ by {
                            if b < before.len() {
                                assert(before[a] == after[a] && before[b] == after[b]);
                            } else {
                                assert(before[a] == after[a]);
                            }
                        }
                    }
                }
                self.entries = entries;
                None
            },
        }
    }

    /// Takes away the type of `name`.
    pub fn remove(&mut self, name: &str)
        ensures
            final(self)@ == old(self)@.remove(name@),
    {
        proof {
            use_type_invariant(&*self);
            lemma_assoc(self.entries@);
        }
        let ghost before = self.entries@;
        match self.position(name) {
            Some(i) => {
                let mut entries: Vec<(String, Types)> = Vec::new();
                std::mem::swap(&mut entries, &mut self.entries);
                entries.remove(i);
                proof {
                    let after = entries@;
                    assert(after == before.remove(i as int));
                    assert(distinct_keys(after)) by {
                        assert forall|a: int, b: int| 0 <= a < b < after.len() implies (#[trigger] after[a]).0@ != (#[trigger] after[b]).0@ by {
                            let oa = if a < i { a } else { a + 1 };
                            let ob = if b < i { b } else { b + 1 };
                            assert(after[a] == before[oa] && after[b] == before[ob]);
                        }
                    }
                    lemma_assoc(after);
                    assert(assoc(after) =~= assoc(before).remove(name@)) by {
                        assert forall|k: Seq<char>| #[trigger] assoc(after).contains_key(k) == assoc(before).remove(name@).contains_key(k) by {
                            if assoc(after).contains_key(k) {
                                let j = choose|j: int| 0 <= j < after.len() && (#[trigger] after[j]).0@ == k;
                                let oj = if j < i { j } else { j + 1 };
                                assert(after[j] == before[oj]);
                                assert(oj != i);
                            }
                            if assoc(before).contains_key(k) && k != name@ {
                                let j = choose|j: int| 0 <= j < before.len() && (#[trigger] before[j]).0@ == k;
                                assert(j != i);
                                let aj = if j < i { j } else { j - 1 };
                                assert(after[aj] == before[j]);
                            }
                        }
                        assert forall|k: Seq<char>| #[trigger] assoc(after).contains_key(k) implies assoc(after)[k] == assoc(before).remove(name@)[k] by {
                            let j = choose|j: int| 0 <= j < after.len() && (#[trigger] after[j]).0@ == k;
                            let oj = if j < i { j } else { j + 1 };
                            assert(after[j] == before[oj]);
                        }
                    }
                }
                self.entries = entries;
            },
            None => {
                proof {
                    assert(assoc(before) =~= assoc(before).remove(name@)) by {
                        if assoc(before).contains_key(name@) {
                            let j = choose|j: int| 0 <= j < before.len() && (#[trigger] before[j]).0@ == name@;
                        }
                    }
                }
            },
        }
    }
}

} // verus!
