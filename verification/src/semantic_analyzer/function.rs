//! Signatures of callable functions: those of the standard library and
//! those the program defines.

use vstd::prelude::*;

use crate::errors::error::{Error, ErrorView};
use crate::errors::error_kind::{ErrorKind, ErrorKindView};
use crate::semantic_analyzer::types::Types;

verus! {

/// The signature of a function.
#[derive(Debug)]
pub struct Function {
    pub name: String,
    pub number_of_args: usize,
    pub parameter_types: Vec<Types>,
    pub return_type: Types,
}

impl Function {
    /// The function `name` taking `number_of_args` arguments of the types
    /// `parameter_types` and returning `return_type`.
    pub fn new(name: &str, number_of_args: usize, parameter_types: Vec<Types>, return_type: Types) -> (res: Function)
        ensures
            res.name@ == name@,
            res.number_of_args == number_of_args,
            res.parameter_types@ == parameter_types@,
            res.return_type == return_type,
    {
        Function { name: name.to_owned(), number_of_args, parameter_types, return_type }
    }
}

/// A signature as a mathematical value.
pub struct FunctionView {
    pub name: Seq<char>,
    pub number_of_args: usize,
    pub parameter_types: Seq<Types>,
    pub return_type: Types,
}

impl View for Function {
    type V = FunctionView;

    open spec fn view(&self) -> FunctionView {
        FunctionView {
            name: self.name@,
            number_of_args: self.number_of_args,
            parameter_types: self.parameter_types@,
            return_type: self.return_type,
        }
    }
}

/// The views of the signatures of `fns`.
pub open spec fn views(fns: Seq<Function>) -> Seq<FunctionView> {
    fns.map_values(|f: Function| f@)
}

/// The index of the first function of `fns` named `name`, if any.
pub open spec fn find_function(fns: Seq<FunctionView>, name: Seq<char>) -> Option<int> {
    if exists|i: int| 0 <= i < fns.len() && (#[trigger] fns[i]).name == name {
        Some(choose|i: int| 0 <= i < fns.len() && (#[trigger] fns[i]).name == name && (forall|j: int| 0 <= j < i ==> (#[trigger] fns[j]).name != name))
    } else {
        None
    }
}

/// No two functions of `fns` share a name.
pub open spec fn distinct_names(fns: Seq<FunctionView>) -> bool {
    forall|i: int, j: int| 0 <= i < j < fns.len() ==> (#[trigger] fns[i]).name != (#[trigger] fns[j]).name
}

proof fn lemma_find_unique(fns: Seq<FunctionView>, k: int)
    requires
        distinct_names(fns),
        0 <= k < fns.len(),
    ensures
        find_function(fns, fns[k].name) == Some(k),
{
    let name = fns[k].name;
    assert(0 <= k < fns.len() && fns[k].name == name);
    let c = choose|i: int| 0 <= i < fns.len() && (#[trigger] fns[i]).name == name && (forall|j: int| 0 <= j < i ==> (#[trigger] fns[j]).name != name);
    assert(0 <= k < fns.len() && fns[k].name == name && (forall|j: int| 0 <= j < k ==> (#[trigger] fns[j]).name != name)) by {
        assert forall|j: int| 0 <= j < k implies (#[trigger] fns[j]).name != name by {}
    }
    if c < k {
        assert(fns[c].name != fns[k].name);
    } else if c > k {
        assert(fns[k].name != fns[c].name);
    }
}

proof fn lemma_find_absent(fns: Seq<FunctionView>, name: Seq<char>)
    requires
        forall|i: int| 0 <= i < fns.len() ==> (#[trigger] fns[i]).name != name,
    ensures
        find_function(fns, name) is None,
{
}

/// Finds the first function of `fns` named `name`.
pub fn lookup<'a>(fns: &'a Vec<Function>, name: &str) -> (res: Option<&'a Function>)
    ensures
        match find_function(views(fns@), name@) {
            Some(i) => res matches Some(f) && f@ == views(fns@)[i],
            None => res is None,
        },
{
    let ghost v = views(fns@);
    let mut i: usize = 0;
    while i < fns.len()
        invariant
            i <= fns@.len(),
            v == views(fns@),
            forall|j: int| 0 <= j < i ==> (#[trigger] v[j]).name != name@,
        decreases fns@.len() - i,
    {
        if string_eq(&fns[i].name, name) {
            proof {
                assert(v[i as int] == fns@[i as int]@);
                let k = choose|k: int| 0 <= k < v.len() && (#[trigger] v[k]).name == name@ && (forall|j: int| 0 <= j < k ==> (#[trigger] v[j]).name != name@);
                assert(0 <= i < v.len() && v[i as int].name == name@ && (forall|j: int| 0 <= j < i ==> (#[trigger] v[j]).name != name@));
                if k < i {
                    assert(v[k].name != name@);
                } else if k > i {
                    assert(v[i as int].name != name@);
                }
            }
            return Some(&fns[i]);
        }
        proof {
            assert(v[i as int] == fns@[i as int]@);
        }
        i = i + 1;
    }
    None
}

/// Whether `a` and `b` hold the same text.
pub fn string_eq(a: &String, b: &str) -> (res: bool)
    ensures
        res == (a@ == b@),
{
    let n = a.as_str().unicode_len();
    if n != b.unicode_len() {
        return false;
    }
    let mut i: usize = 0;
    while i < n
        invariant
            n == a@.len(),
            n == b@.len(),
            i <= n,
            forall|k: int| 0 <= k < i ==> a@[k] == b@[k],
        decreases n - i,
    {
        if a.as_str().get_char(i) != b.get_char(i) {
            return false;
        }
        i = i + 1;
    }
    proof {
        assert(a@ =~= b@);
    }
    true
}

/// The functions a program may call without defining them.
#[derive(Debug)]
pub struct StandardLibrary {
    pub functions: Vec<Function>,
}

impl StandardLibrary {
    /// A standard library of the functions `functions`.
    pub fn new(functions: Vec<Function>) -> (res: StandardLibrary)
        ensures
            res.functions@ == functions@,
    {
        StandardLibrary { functions }
    }

    /// The function named `name`; an unknown-function error at `pos` when
    /// there is none.
    pub fn get_function(&self, pos: usize, name: &str) -> (res: Result<&Function, Error>)
        ensures
            match find_function(views(self.functions@), name@) {
                Some(i) => res matches Ok(f) && f@ == views(self.functions@)[i],
                None => res matches Err(e) && e@ == (ErrorView { kind: ErrorKindView::UnknownFunction, position: Some(pos) }),
            },
    {
        match lookup(&self.functions, name) {
            Some(f) => Ok(f),
            None => Err(Error::new(ErrorKind::UnknownFunction, pos)),
        }
    }
}

/// The functions a program defines, by name: defining a name again replaces
/// the earlier definition.
#[derive(Debug)]
pub struct FunctionTable {
    functions: Vec<Function>,
}

impl FunctionTable {
    /// No two entries share a name.
    #[verifier::type_invariant]
    spec fn inv(self) -> bool {
        distinct_names(views(self.functions@))
    }

    /// The defined functions.
    pub closed spec fn entries(&self) -> Seq<FunctionView> {
        views(self.functions@)
    }

    /// The table with no functions.
    pub fn new() -> (res: FunctionTable)
        ensures
            res.entries().len() == 0,
    {
        FunctionTable { functions: Vec::new() }
    }

    /// The function named `name`, if one is defined.
    pub fn get(&self, name: &str) -> (res: Option<&Function>)
        ensures
            match find_function(self.entries(), name@) {
                Some(i) => res matches Some(f) && f@ == self.entries()[i],
                None => res is None,
            },
    {
        lookup(&self.functions, name)
    }

    /// Defines `function` under its name, replacing any function of that
    /// name.
    #[verifier::rlimit(40)]
    pub fn insert(&mut self, function: Function)
        ensures
            final(self).entries() == replaced(
                old(self).entries(),
                name_index(old(self).entries(), function.name@),
                function@,
            ),
            find_function(final(self).entries(), function.name@) matches Some(i) && final(self).entries()[i] == function@,
            forall|name: Seq<char>|
                name != function.name@ ==> (match #[trigger] find_function(old(self).entries(), name) {
                    Some(i) => find_function(final(self).entries(), name) matches Some(k) && final(self).entries()[k] == old(self).entries()[i],
                    None => find_function(final(self).entries(), name) is None,
                }),
    {
        proof {
            use_type_invariant(&*self);
        }
        let mut functions: Vec<Function> = Vec::new();
        std::mem::swap(&mut functions, &mut self.functions);
        let ghost old_fns = views(functions@);
        let ghost old_vec = functions@;
        proof {
            assert(distinct_names(old_fns));
        }
        let mut i: usize = 0;
        loop
            invariant_except_break
                i <= functions@.len(),
                functions@ == old_vec,
                old_fns == views(old_vec),
                forall|j: int| 0 <= j < i ==> (#[trigger] old_fns[j]).name != function.name@,
            ensures
                i <= functions@.len(),
                functions@ == old_vec,
                forall|j: int| 0 <= j < i ==> (#[trigger] old_fns[j]).name != function.name@,
                i < functions@.len() ==> old_fns[i as int].name == function.name@,
            decreases functions@.len() - i,
        {
            if i >= functions.len() {
                break;
            }
            if string_eq(&functions[i].name, function.name.as_str()) {
                break;
            }
            proof {
                assert(old_fns[i as int] == old_vec[i as int]@);
            }
            i = i + 1;
        }
        if i < functions.len() {
            functions.remove(i);
        }
        let ghost fv = function@;
        functions.push(function);
        proof {
            assert(views(functions@) =~= replaced(old_fns, i as int, fv));
            lemma_replace(old_fns, i as int, fv, views(functions@));
            if i < old_fns.len() {
                lemma_find_unique(old_fns, i as int);
            } else {
                lemma_find_absent(old_fns, fv.name);
            }
        }
        self.functions = functions;
    }
}

/// Where the function named `name` stands in `fns`; the length of `fns`
/// when none does.
pub open spec fn name_index(fns: Seq<FunctionView>, name: Seq<char>) -> int {
    match find_function(fns, name) {
        Some(i) => i,
        None => fns.len() as int,
    }
}

/// The table after removing the function at `i` (when `i` is an index) and
/// adding `f`.
pub open spec fn replaced(old_fns: Seq<FunctionView>, i: int, f: FunctionView) -> Seq<FunctionView> {
    (if i < old_fns.len() { old_fns.remove(i) } else { old_fns }).push(f)
}

/// The index in the old table of the function at `j` of the new one.
pub open spec fn origin(old_fns: Seq<FunctionView>, i: int, j: int) -> int {
    if i < old_fns.len() && j >= i { j + 1 } else { j }
}

proof fn lemma_replaced_origin(old_fns: Seq<FunctionView>, i: int, f: FunctionView, j: int)
    requires
        0 <= i <= old_fns.len(),
        0 <= j < replaced(old_fns, i, f).len() - 1,
    ensures
        0 <= origin(old_fns, i, j) < old_fns.len(),
        origin(old_fns, i, j) != i,
        replaced(old_fns, i, f)[j] == old_fns[origin(old_fns, i, j)],
{
}

proof fn lemma_replace_distinct(old_fns: Seq<FunctionView>, i: int, f: FunctionView)
    requires
        distinct_names(old_fns),
        0 <= i <= old_fns.len(),
        forall|j: int| 0 <= j < i ==> (#[trigger] old_fns[j]).name != f.name,
        i < old_fns.len() ==> old_fns[i].name == f.name,
    ensures
        distinct_names(replaced(old_fns, i, f)),
{
    let new_fns = replaced(old_fns, i, f);
    assert forall|a: int, b: int| 0 <= a < b < new_fns.len() implies (#[trigger] new_fns[a]).name != (#[trigger] new_fns[b]).name by {
        lemma_replaced_origin(old_fns, i, f, a);
        let oa = origin(old_fns, i, a);
        if b == new_fns.len() - 1 {
            if oa > i {
                assert(old_fns[i].name != old_fns[oa].name);
            }
        } else {
            lemma_replaced_origin(old_fns, i, f, b);
        }
    }
}

proof fn lemma_replace_keeps(old_fns: Seq<FunctionView>, i: int, f: FunctionView, name: Seq<char>)
    requires
        distinct_names(old_fns),
        distinct_names(replaced(old_fns, i, f)),
        0 <= i <= old_fns.len(),
        i < old_fns.len() ==> old_fns[i].name == f.name,
        name != f.name,
    ensures
        match find_function(old_fns, name) {
            Some(k) => find_function(replaced(old_fns, i, f), name) matches Some(m) && replaced(old_fns, i, f)[m] == old_fns[k],
            None => find_function(replaced(old_fns, i, f), name) is None,
        },
{
    let new_fns = replaced(old_fns, i, f);
    match find_function(old_fns, name) {
        Some(k) => {
            lemma_find_unique(old_fns, k);
            let m = if i < old_fns.len() && k > i { k - 1 } else { k };
            assert(k != i || i == old_fns.len());
            lemma_replaced_origin(old_fns, i, f, m);
            lemma_find_unique(new_fns, m);
        },
        None => {
            assert forall|j: int| 0 <= j < new_fns.len() implies (#[trigger] new_fns[j]).name != name by {
                if j < new_fns.len() - 1 {
                    lemma_replaced_origin(old_fns, i, f, j);
                    let o = origin(old_fns, i, j);
                    if old_fns[o].name == name {
                        assert(0 <= o < old_fns.len() && old_fns[o].name == name);
                    }
                }
            }
            lemma_find_absent(new_fns, name);
        },
    }
}

/// Removing the function at `i` (when `i` is an index) and adding `f` gives
/// a table with distinct names in which `f` is found under its name and
/// every other name is found as before.
proof fn lemma_replace(old_fns: Seq<FunctionView>, i: int, f: FunctionView, new_fns: Seq<FunctionView>)
    requires
        distinct_names(old_fns),
        0 <= i <= old_fns.len(),
        forall|j: int| 0 <= j < i ==> (#[trigger] old_fns[j]).name != f.name,
        i < old_fns.len() ==> old_fns[i].name == f.name,
        new_fns == replaced(old_fns, i, f),
    ensures
        distinct_names(new_fns),
        find_function(new_fns, f.name) matches Some(k) && new_fns[k] == f,
        forall|name: Seq<char>|
            name != f.name ==> (match #[trigger] find_function(old_fns, name) {
                Some(k) => find_function(new_fns, name) matches Some(m) && new_fns[m] == old_fns[k],
                None => find_function(new_fns, name) is None,
            }),
{
    lemma_replace_distinct(old_fns, i, f);
    lemma_find_unique(new_fns, new_fns.len() - 1);
    assert forall|name: Seq<char>| name != f.name implies (match #[trigger] find_function(old_fns, name) {
        Some(k) => find_function(new_fns, name) matches Some(m) && new_fns[m] == old_fns[k],
        None => find_function(new_fns, name) is None,
    }) by {
        lemma_replace_keeps(old_fns, i, f, name);
    }
}

} // verus!
