//! An owning pointer to a node of the syntax tree, with the helpers that
//! take its value through a function.

use vstd::prelude::*;

verus! {

/// An owning pointer.
#[derive(Debug, Clone)]
pub struct P<T> {
    ptr: Box<T>,
}

/// A pointer to `value`.
#[allow(non_snake_case)]
pub fn P<T>(value: T) -> (res: P<T>)
    ensures
        res.value() == value,
{
    P { ptr: Box::new(value) }
}

impl<T> std::ops::Deref for P<T> {
    type Target = T;

    /// The value pointed to, borrowed.
    fn deref(&self) -> (res: &T)
        ensures
            *res == self.value(),
    {
        &*self.ptr
    }
}

impl<T> P<T> {
    /// The value pointed to.
    pub closed spec fn value(&self) -> T {
        *self.ptr
    }

    /// What `f` makes of the value.
    pub fn and_then<U, F: FnOnce(T) -> U>(self, f: F) -> (res: U)
        requires
            f.requires((self.value(),)),
        ensures
            f.ensures((self.value(),), res),
    {
        f(*self.ptr)
    }

    /// The value pointed to.
    pub fn into_inner(self) -> (res: T)
        ensures
            res == self.value(),
    {
        *self.ptr
    }

    /// The pointer to what `f` makes of the value.
    pub fn map<F: FnOnce(T) -> T>(self, f: F) -> (res: P<T>)
        requires
            f.requires((self.value(),)),
        ensures
            f.ensures((self.value(),), res.value()),
    {
        let x = f(*self.ptr);
        P { ptr: Box::new(x) }
    }

    /// The pointer to the value `f` makes of the value, if it makes one.
    pub fn filter_map<F: FnOnce(T) -> Option<T>>(self, f: F) -> (res: Option<P<T>>)
        requires
            f.requires((self.value(),)),
        ensures
            match res {
                Some(p) => f.ensures((self.value(),), Some(p.value())),
                None => f.ensures((self.value(),), None::<T>),
            },
    {
        match f(*self.ptr) {
            Some(x) => Some(P { ptr: Box::new(x) }),
            None => None,
        }
    }
}

} // verus!
