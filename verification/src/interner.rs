//! An interner of texts: each distinct text gets the next free id, held in
//! a `bimap::BiHashMap` from ids to texts.

use vstd::prelude::*;

use bimap::BiHashMap;

verus! {

#[verifier::external_type_specification]
#[verifier::external_body]
#[verifier::reject_recursive_types(L)]
#[verifier::reject_recursive_types(R)]
#[verifier::reject_recursive_types(LS)]
#[verifier::reject_recursive_types(RS)]
pub struct ExBiHashMap<L, R, LS, RS>(BiHashMap<L, R, LS, RS>);

/// A bimap from ids to texts.
pub type IdMap = BiHashMap<usize, String>;

/// The pairs a bimap holds, as a map from left values to right ones.
pub uninterp spec fn bimap_pairs(m: IdMap) -> Map<usize, Seq<char>>;

/// `m` without the pairs whose right value is `v`.
pub open spec fn without_value(m: Map<usize, Seq<char>>, v: Seq<char>) -> Map<usize, Seq<char>> {
    Map::new(|k: usize| m.contains_key(k) && m[k] != v, |k: usize| m[k])
}

/// `BiHashMap::new`: an empty bimap.
#[verifier::external_body]
fn bimap_new() -> (res: IdMap)
    ensures
        bimap_pairs(res).dom() == Set::<usize>::empty(),
{
    BiHashMap::new()
}

/// `BiHashMap::get_by_right`: the left value paired with `right`, if any.
#[verifier::external_body]
fn bimap_get_by_right(m: &IdMap, right: &String) -> (res: Option<usize>)
    ensures
        match res {
            Some(l) => bimap_pairs(*m).contains_key(l) && bimap_pairs(*m)[l] == right@,
            None => forall|l: usize| #[trigger] bimap_pairs(*m).contains_key(l) ==> bimap_pairs(*m)[l] != right@,
        },
{
    m.get_by_right(right).copied()
}

/// `BiHashMap::insert`: pairs `left` with `right`, after taking away the
/// pair of `left` and the pair of `right`, whichever there are.
#[verifier::external_body]
fn bimap_insert(m: &mut IdMap, left: usize, right: String)
    ensures
        bimap_pairs(*final(m)) == without_value(bimap_pairs(*old(m)).remove(left), right@).insert(left, right@),
{
    m.insert(left, right);
}

/// The ids and texts after interning `value` into `pairs` whose next free
/// id is `next`, and the id `value` has.
pub open spec fn interned_value(pairs: Map<usize, Seq<char>>, next: usize, value: Seq<char>) -> (Map<usize, Seq<char>>, int, int) {
    if exists|id: usize| pairs.contains_key(id) && pairs[id] == value {
        let id = choose|id: usize| pairs.contains_key(id) && pairs[id] == value;
        (pairs, next as int, id as int)
    } else {
        (pairs.insert(next, value), next + 1, next as int)
    }
}

/// Gives each distinct text an id, counting up from zero.
pub struct Interner {
    next_id: usize,
    intern_map: IdMap,
}

impl Interner {
    /// The ids given so far are those below the next one, each to one text.
    #[verifier::type_invariant]
    spec fn inv(self) -> bool {
        &&& forall|id: usize| #[trigger] bimap_pairs(self.intern_map).contains_key(id) <==> id < self.next_id
        &&& forall|a: usize, b: usize|
            #[trigger] bimap_pairs(self.intern_map).contains_key(a) && #[trigger] bimap_pairs(self.intern_map).contains_key(b)
                && a != b ==> bimap_pairs(self.intern_map)[a] != bimap_pairs(self.intern_map)[b]
    }

    /// The texts by id.
    pub closed spec fn pairs(&self) -> Map<usize, Seq<char>> {
        bimap_pairs(self.intern_map)
    }

    /// The id the next new text gets.
    pub closed spec fn next(&self) -> usize {
        self.next_id
    }

    /// The id of `value`: the one it was given, or the next free one.
    pub fn insert(&mut self, value: String) -> (res: usize)
        requires
            old(self).next() < usize::MAX,
        ensures
            (final(self).pairs(), final(self).next() as int, res as int) == interned_value(
                old(self).pairs(),
                old(self).next(),
                value@,
            ),
    {
        proof {
            use_type_invariant(&*self);
        }
        match bimap_get_by_right(&self.intern_map, &value) {
            Some(id) => {
                proof {
                    let pairs = self.pairs();
                    let c = choose|id: usize| pairs.contains_key(id) && pairs[id] == value@;
                    assert(c == id) by {
                        if c != id {
                            assert(pairs[c] != pairs[id]);
                        }
                    }
                }
                id
            },
            None => {
                let ghost before = self.pairs();
                let ghost v = value@;
                let mut current = Interner { next_id: 0, intern_map: bimap_new() };
                std::mem::swap(self, &mut current);
                proof {
                    use_type_invariant(&current);
                }
                let Interner { next_id, intern_map } = current;
                let mut map = intern_map;
                bimap_insert(&mut map, next_id, value);
                proof {
                    assert(!before.contains_key(next_id));
                    assert(without_value(before.remove(next_id), v) =~= before);
                    assert(!(exists|id: usize| before.contains_key(id) && before[id] == v));
                }
                *self = Interner { next_id: next_id + 1, intern_map: map };
                let id = next_id;
                id
            },
        }
    }
}

impl Default for Interner {
    /// An interner that has given no id.
    fn default() -> (res: Self)
        ensures
            res.pairs() == Map::<usize, Seq<char>>::empty(),
            res.next() == 0,
    {
        Interner { next_id: 0, intern_map: bimap_new() }
    }
}

/// Interning a text twice gives the same id, and the second time changes
/// nothing.
pub proof fn lemma_insert_idempotent(pairs: Map<usize, Seq<char>>, next: usize, value: Seq<char>)
    requires
        next < usize::MAX,
        forall|id: usize| #[trigger] pairs.contains_key(id) <==> id < next,
        forall|a: usize, b: usize|
            #[trigger] pairs.contains_key(a) && #[trigger] pairs.contains_key(b) && a != b ==> pairs[a] != pairs[b],
    ensures
        ({
            let (p1, n1, id1) = interned_value(pairs, next, value);
            let (p2, n2, id2) = interned_value(p1, n1 as usize, value);
            p2 == p1 && n2 == n1 && id2 == id1
        }),
{
    let (p1, n1, id1) = interned_value(pairs, next, value);
    if !(exists|id: usize| pairs.contains_key(id) && pairs[id] == value) {
        assert(p1.contains_key(next) && p1[next] == value);
        let c = choose|id: usize| p1.contains_key(id) && p1[id] == value;
        if c != next {
            assert(pairs.contains_key(c) && pairs[c] == value);
        }
    }
}

/// Distinct texts get distinct ids.
pub proof fn lemma_insert_distinct(pairs: Map<usize, Seq<char>>, next: usize, a: Seq<char>, b: Seq<char>)
    requires
        next + 1 < usize::MAX,
        a != b,
        forall|id: usize| #[trigger] pairs.contains_key(id) <==> id < next,
        forall|x: usize, y: usize|
            #[trigger] pairs.contains_key(x) && #[trigger] pairs.contains_key(y) && x != y ==> pairs[x] != pairs[y],
    ensures
        ({
            let (p1, n1, ida) = interned_value(pairs, next, a);
            let (p2, n2, idb) = interned_value(p1, n1 as usize, b);
            ida != idb
        }),
{
    let (p1, n1, ida) = interned_value(pairs, next, a);
    assert(p1.contains_key(ida as usize) && p1[ida as usize] == a);
    let (p2, n2, idb) = interned_value(p1, n1 as usize, b);
    assert(p2.contains_key(idb as usize) && p2[idb as usize] == b);
    if idb == ida {
        assert(p2[ida as usize] == p1[ida as usize]);
    }
}

} // verus!
