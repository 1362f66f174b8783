//! A point type with derived traits, and the hand-written forms of two
//! small macros: one that collects its arguments into a vector, and one
//! that counts up to two arguments of any types.
use vstd::prelude::*;

verus! {

/// A point in the integer plane.
#[derive(Debug, Clone, PartialEq)]
pub struct Point {
    pub x: i32,
    pub y: i32,
}

/// A vector holding the given values in order, built by moving each one in
/// turn to the end of a new vector.
pub fn my_vec<T>(values: Vec<T>) -> (v: Vec<T>)
    ensures
        v@ == values@,
{
    let mut rest = values;
    let mut v: Vec<T> = Vec::new();
    while rest.len() > 0
        invariant
            v@ + rest@ == values@,
        decreases rest.len(),
    {
        let x = rest.remove(0);
        v.push(x);
        assert(v@ + rest@ =~= values@);
    }
    assert(v@ =~= values@);
    v
}

/// A list of arguments, each of its own type, that can be counted.
pub trait Arguments {
    /// How many arguments the list holds.
    spec fn arity() -> nat;

    /// The number of arguments.
    fn arg_count(&self) -> (n: usize)
        ensures
            n == Self::arity(),
    ;
}

impl Arguments for () {
    open spec fn arity() -> nat {
        0
    }

    fn arg_count(&self) -> (n: usize) {
        0
    }
}

impl<A> Arguments for (A,) {
    open spec fn arity() -> nat {
        1
    }

    fn arg_count(&self) -> (n: usize) {
        1
    }
}

impl<A, B> Arguments for (A, B) {
    open spec fn arity() -> nat {
        2
    }

    fn arg_count(&self) -> (n: usize) {
        2
    }
}

/// The number of arguments, for none, one or two arguments of any types.
pub fn count<L: Arguments>(args: L) -> (n: usize)
    ensures
        n == L::arity(),
{
    args.arg_count()
}

/// No arguments count as 0, one argument as 1 and two as 2, whatever
/// their types.
pub proof fn law_count_arities<A, B>()
    ensures
        <() as Arguments>::arity() == 0,
        <(A,) as Arguments>::arity() == 1,
        <(A, B) as Arguments>::arity() == 2,
{
}

} // verus!
