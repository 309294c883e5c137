//! Interned names: each distinct text gets one small id, and the id gives
//! the text back. The strings are held by a `lasso::Rodeo`.

use vstd::prelude::*;

use lasso::{Key, Rodeo, Spur};

verus! {

/// The id of an interned text: the index at which the interner holds it.
pub type SymbolId = usize;

#[verifier::external_type_specification]
#[verifier::external_body]
#[verifier::reject_recursive_types(K)]
#[verifier::reject_recursive_types(S)]
pub struct ExRodeo<K, S>(Rodeo<K, S>);

#[verifier::external_type_specification]
#[verifier::external_body]
pub struct ExSpur(Spur);

/// The texts a rodeo holds, by the index of their keys.
pub uninterp spec fn rodeo_strings(r: Rodeo) -> Seq<Seq<char>>;

/// `Rodeo::default`: a rodeo that holds no text.
#[verifier::external_body]
fn rodeo_new() -> (res: Rodeo)
    ensures
        rodeo_strings(res) == Seq::<Seq<char>>::empty(),
{
    Rodeo::default()
}

/// `Rodeo::get_or_intern`, with the key taken as its index: a text the
/// rodeo holds gives the index it is held at and leaves the rodeo as it
/// was; a new text is appended and gives the index it now has. The key space
/// of `Spur` holds fewer than `u32::MAX` texts (the call panics beyond).
#[verifier::external_body]
fn rodeo_get_or_intern(r: &mut Rodeo, val: &str) -> (res: usize)
    requires
        rodeo_strings(*old(r)).len() < u32::MAX,
    ensures
        (exists|i: int| 0 <= i < rodeo_strings(*old(r)).len() && rodeo_strings(*old(r))[i] == val@) ==> {
            &&& rodeo_strings(*final(r)) == rodeo_strings(*old(r))
            &&& res < rodeo_strings(*old(r)).len()
            &&& rodeo_strings(*old(r))[res as int] == val@
        },
        !(exists|i: int| 0 <= i < rodeo_strings(*old(r)).len() && rodeo_strings(*old(r))[i] == val@) ==> {
            &&& rodeo_strings(*final(r)) == rodeo_strings(*old(r)).push(val@)
            &&& res == rodeo_strings(*old(r)).len()
        },
{
    r.get_or_intern(val).into_usize()
}

/// `Rodeo::resolve` of the key with index `id`: the text held there (the
/// call panics on an index past the end).
#[verifier::external_body]
fn rodeo_resolve<'a>(r: &'a Rodeo, id: usize) -> (res: &'a str)
    requires
        id < rodeo_strings(*r).len(),
        id < u32::MAX,
    ensures
        res@ == rodeo_strings(*r)[id as int],
{
    r.resolve(&Spur::try_from_usize(id).unwrap())
}

/// No text occurs twice in `s`.
pub open spec fn all_distinct(s: Seq<Seq<char>>) -> bool {
    forall|i: int, j: int| 0 <= i < j < s.len() ==> s[i] != s[j]
}

/// The texts after interning `key` into `texts`, and the id `key` has.
pub open spec fn interned(texts: Seq<Seq<char>>, key: Seq<char>) -> (Seq<Seq<char>>, int) {
    if exists|i: int| 0 <= i < texts.len() && texts[i] == key {
        (texts, choose|i: int| 0 <= i < texts.len() && texts[i] == key)
    } else {
        (texts.push(key), texts.len() as int)
    }
}

/// Interns names.
#[derive(Debug)]
pub struct SymbolInterner {
    interner: Rodeo,
}

impl SymbolInterner {
    #[verifier::type_invariant]
    spec fn inv(self) -> bool {
        &&& all_distinct(rodeo_strings(self.interner))
        &&& rodeo_strings(self.interner).len() <= u32::MAX
    }

    /// The interned texts, by id.
    pub closed spec fn symbols(&self) -> Seq<Seq<char>> {
        rodeo_strings(self.interner)
    }

    /// An interner that holds no text.
    pub fn new() -> (res: SymbolInterner)
        ensures
            res.symbols() == Seq::<Seq<char>>::empty(),
    {
        SymbolInterner { interner: rodeo_new() }
    }

    /// The id of `key`, which is interned first if it is new.
    pub fn get_symbol(&mut self, key: &str) -> (res: SymbolId)
        requires
            old(self).symbols().len() < u32::MAX,
        ensures
            (final(self).symbols(), res as int) == interned(old(self).symbols(), key@),
    {
        proof {
            use_type_invariant(&*self);
        }
        let ghost before = self.symbols();
        let mut interner = rodeo_new();
        std::mem::swap(&mut interner, &mut self.interner);
        let id = rodeo_get_or_intern(&mut interner, key);
        proof {
            if exists|i: int| 0 <= i < before.len() && before[i] == key@ {
                let c = choose|i: int| 0 <= i < before.len() && before[i] == key@;
                assert(c == id) by {
                    if c != id as int {
                        assert(before[c] == before[id as int]);
                    }
                }
            } else {
                let after = rodeo_strings(interner);
                assert forall|i: int, j: int| 0 <= i < j < after.len() implies after[i] != after[j] by {
                    if j < before.len() {
                        assert(after[i] == before[i] && after[j] == before[j]);
                    } else {
                        assert(after[i] == before[i]);
                    }
                }
            }
        }
        self.interner = interner;
        id
    }

    /// The text interned under `id`.
    pub fn get_key(&self, id: &SymbolId) -> (res: &str)
        requires
            *id < self.symbols().len(),
        ensures
            res@ == self.symbols()[*id as int],
    {
        proof {
            use_type_invariant(self);
        }
        rodeo_resolve(&self.interner, *id)
    }
}

/// Interning gives back the id of the text, and that id gives back the
/// text.
pub proof fn lemma_interned_resolves(texts: Seq<Seq<char>>, key: Seq<char>)
    ensures
        0 <= interned(texts, key).1 < interned(texts, key).0.len(),
        interned(texts, key).0[interned(texts, key).1] == key,
{
}

/// Interning a text that is already interned changes nothing, and gives
/// the same id again.
pub proof fn lemma_interned_idempotent(texts: Seq<Seq<char>>, key: Seq<char>)
    ensures
        interned(interned(texts, key).0, key) == interned(texts, key),
{
    let (after, id) = interned(texts, key);
    assert(0 <= id < after.len() && after[id] == key);
    if !(exists|i: int| 0 <= i < texts.len() && texts[i] == key) {
        let c = choose|i: int| 0 <= i < after.len() && after[i] == key;
        if c < texts.len() {
            assert(texts[c] == key);
        }
    }
}

/// Distinct texts get distinct ids, and the interned texts stay distinct.
pub proof fn lemma_interned_distinct(texts: Seq<Seq<char>>, a: Seq<char>, b: Seq<char>)
    requires
        all_distinct(texts),
        a != b,
    ensures
        all_distinct(interned(texts, a).0),
        interned(interned(texts, a).0, b).1 != interned(texts, a).1,
{
    let (t1, ia) = interned(texts, a);
    assert forall|i: int, j: int| 0 <= i < j < t1.len() implies t1[i] != t1[j] by {
        if j >= texts.len() {
            assert(t1[i] == texts[i]);
        }
    }
    let (t2, ib) = interned(t1, b);
    assert(t2[ib] == b);
    assert(t1[ia] == a);
    if ib < t1.len() {
        assert(t2[ib] == t1[ib]);
    }
}

} // verus!
