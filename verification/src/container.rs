//! Bounded generic containers.
//!
//! A container's type parameters are shared by all fields naming them; a
//! method may bring additional type parameters of its own, and may carry a
//! narrower bound than the container's declaration, in which case it is
//! available only where the instantiated parameter satisfies that bound too.

use vstd::prelude::*;
use vstd::string::StringExecFns;

use crate::capability::Describe;
use crate::sorting::TotalOrder;

verus! {

/// A pair of coordinates: both fields share the one parameter, so they hold
/// the same concrete type at instantiation.
pub struct Point<T> {
    /// The first coordinate.
    pub x: T,
    /// The second coordinate.
    pub y: T,
}

impl<T> Point<T> {
    /// Borrow the first coordinate.
    pub fn x(&self) -> (r: &T)
        ensures
            *r == self.x,
    {
        &self.x
    }
}

/// A pair over two distinct parameters, instantiable with distinct types.
pub struct Pointu<T, U> {
    /// The first field, of the first parameter's type.
    pub x: T,
    /// The second field, of the second parameter's type.
    pub y: U,
}

impl<T, U> Pointu<T, U> {
    /// Combine with a pair of a different parameter pairing: the result keeps
    /// this pair's first field and the other pair's second field.  `V` and
    /// `W` are the method's own parameters, beyond the container's `T`, `U`.
    pub fn mixup<V, W>(self, other: Pointu<V, W>) -> (r: Pointu<T, W>)
        ensures
            r.x == self.x,
            r.y == other.y,
    {
        Pointu { x: self.x, y: other.y }
    }
}

/// A homogeneous pair whose richer operations are gated by capability bounds.
pub struct Pair<T> {
    /// The first element.
    pub x: T,
    /// The second element.
    pub y: T,
}

impl<T> Pair<T> {
    /// Build a pair; available at every instantiation.
    pub fn new(x: T, y: T) -> (r: Pair<T>)
        ensures
            r.x == x,
            r.y == y,
    {
        Pair { x, y }
    }
}

impl<T: TotalOrder + Describe> Pair<T> {
    /// Name the element with the greater rank.  The method's bound is
    /// narrower than the container's: only pairs whose element type also
    /// satisfies the ordering and describe capabilities have it.
    pub fn cmp_display(&self) -> (r: String)
        ensures
            self.x.rank_spec() >= self.y.rank_spec() ==> r@ == "largest is x = "@
                + self.x.describe_spec(),
            self.x.rank_spec() < self.y.rank_spec() ==> r@ == "largest is y = "@
                + self.y.describe_spec(),
    {
        if self.y.le(&self.x) {
            let mut r = "largest is x = ".to_owned();
            let d = self.x.describe();
            r.append(d.as_str());
            r
        } else {
            let mut r = "largest is y = ".to_owned();
            let d = self.y.describe();
            r.append(d.as_str());
            r
        }
    }
}

/// The addition capability: values that can be summed, with the inputs on
/// which the sum is representable stated alongside.
pub trait Addable: Sized {
    /// The sum.
    spec fn add_spec(self, other: Self) -> Self;

    /// The inputs whose sum is representable.
    spec fn add_ok(self, other: Self) -> bool;

    /// Executable addition, for representable sums.
    fn add(self, other: Self) -> (r: Self)
        requires
            self.add_ok(other),
        ensures
            r == self.add_spec(other),
    ;
}

impl Addable for i64 {
    open spec fn add_spec(self, other: Self) -> i64 {
        (self + other) as i64
    }

    open spec fn add_ok(self, other: Self) -> bool {
        i64::MIN <= self + other <= i64::MAX
    }

    fn add(self, other: Self) -> i64 {
        self + other
    }
}

/// A point whose coordinates can be summed: the container's own bound, which
/// every instantiation must satisfy.
pub struct PointAdd<T: Addable> {
    /// The first coordinate.
    pub x: T,
    /// The second coordinate.
    pub y: T,
}

impl<T: Addable> PointAdd<T> {
    /// Componentwise addition.
    pub fn add(self, p: PointAdd<T>) -> (r: PointAdd<T>)
        requires
            self.x.add_ok(p.x),
            self.y.add_ok(p.y),
        ensures
            r.x == self.x.add_spec(p.x),
            r.y == self.y.add_spec(p.y),
    {
        PointAdd { x: self.x.add(p.x), y: self.y.add(p.y) }
    }
}

/// Sum two values of any type satisfying the addition capability.
pub fn add<T: Addable>(a: T, b: T) -> (r: T)
    requires
        a.add_ok(b),
    ensures
        r == a.add_spec(b),
{
    a.add(b)
}

} // verus!
