//! Dynamic dispatch over capability objects.
//!
//! A capability object is a value known only by the capability it satisfies:
//! it is stored behind one allocation per element, its concrete type erased,
//! and operations are resolved at runtime through a per-element table.  The
//! closed alternative is an enumeration of named cases, preferred when the
//! set of concrete shapes is fixed at compile time.

use vstd::prelude::*;
use vstd::string::StringExecFns;

use crate::capability::Describe;

verus! {

/// A version-four address, one concrete shape satisfying `Describe`.
pub struct V4(pub String);

/// A version-six address, another concrete shape satisfying `Describe`.
pub struct V6(pub String);

impl Describe for V4 {
    open spec fn describe_spec(&self) -> Seq<char> {
        "ipv4: "@ + self.0@
    }

    fn describe(&self) -> (r: String) {
        let mut r = "ipv4: ".to_owned();
        r.append(self.0.as_str());
        r
    }
}

impl Describe for V6 {
    open spec fn describe_spec(&self) -> Seq<char> {
        "ipv6: "@ + self.0@
    }

    fn describe(&self) -> (r: String) {
        let mut r = "ipv6: ".to_owned();
        r.append(self.0.as_str());
        r
    }
}

/// The closed alternative to capability objects: a fixed enumeration of the
/// concrete shapes.  Preferred when every shape is known at compile time;
/// dispatch is an exhaustive match, with no allocation and no indirection,
/// but no new shape can be added without changing this definition.
pub enum IpAddr {
    /// A version-four address.
    V4(String),
    /// A version-six address.
    V6(String),
}

/// The text an address variant renders to.
pub open spec fn addr_text(a: IpAddr) -> Seq<char> {
    match a {
        IpAddr::V4(s) => "ipv4: "@ + s@,
        IpAddr::V6(s) => "ipv6: "@ + s@,
    }
}

impl IpAddr {
    /// Render the address, resolving the variant by exhaustive match.
    pub fn describe(&self) -> (r: String)
        ensures
            r@ == addr_text(*self),
    {
        match self {
            IpAddr::V4(s) => {
                let mut r = "ipv4: ".to_owned();
                r.append(s.as_str());
                r
            },
            IpAddr::V6(s) => {
                let mut r = "ipv6: ".to_owned();
                r.append(s.as_str());
                r
            },
        }
    }
}

/// Render every variant of a homogeneously typed, heterogeneously shaped
/// list, in order: the closed counterpart of `ObjectList::describe_all`.
pub fn describe_variants(list: &Vec<IpAddr>) -> (r: Vec<String>)
    ensures
        r@.len() == list@.len(),
        forall|i: int| 0 <= i < r@.len() ==> r@[i]@ == addr_text(list@[i]),
{
    let mut r: Vec<String> = Vec::new();
    for i in 0..list.len()
        invariant
            r@.len() == i,
            forall|j: int| 0 <= j < i ==> r@[j]@ == addr_text(list@[j]),
    {
        r.push(list[i].describe());
    }
    r
}

/// An open, heterogeneous collection of capability objects: any type
/// satisfying `Describe` may be appended at runtime, and iteration follows
/// insertion order exactly.
pub struct ObjectList {
    items: Vec<Box<dyn Describe>>,
}

/// Relies on Vec::push: appends the value at the end of the vector, behind
/// one fresh allocation, with its concrete type erased.  vstd states this of
/// `push` generically, but values of trait-object type are opaque to the
/// verifier, so the effect is restated here through the capability's
/// specification function, which erasure leaves untouched.
#[verifier::external_body]
fn push_value<T: Describe + 'static>(items: &mut Vec<Box<dyn Describe>>, value: T)
    ensures
        final(items)@.len() == old(items)@.len() + 1,
        forall|j: int|
            0 <= j < old(items)@.len() ==> #[trigger] final(items)@[j].describe_spec() == old(
                items,
            )@[j].describe_spec(),
        final(items)@[old(items)@.len() as int].describe_spec() == value.describe_spec(),
{
    items.push(Box::new(value));
}

impl ObjectList {
    /// The texts of the held objects, in insertion order.
    pub closed spec fn view(&self) -> Seq<Seq<char>> {
        Seq::new(self.items@.len(), |i: int| self.items@[i].describe_spec())
    }

    /// An empty collection.
    pub fn new() -> (r: ObjectList)
        ensures
            r@ == Seq::<Seq<char>>::empty(),
    {
        ObjectList { items: Vec::new() }
    }

    /// Append one capability object at the end: the value is moved behind an
    /// allocation of its own and known from then on only by its capability.
    pub fn append_object<T: Describe + 'static>(&mut self, item: T)
        ensures
            final(self)@ == old(self)@.push(item.describe_spec()),
    {
        push_value(&mut self.items, item);
        proof {
            assert forall|j: int| 0 <= j < self@.len() implies self@[j] == old(self)@.push(
                item.describe_spec(),
            )[j] by {
                assert(self@[j] == self.items@[j].describe_spec());
                if j < old(self)@.len() {
                    assert(self.items@[j].describe_spec() == old(self).items@[j].describe_spec());
                    assert(old(self)@[j] == old(self).items@[j].describe_spec());
                } else {
                    assert(j == old(self).items@.len());
                    assert(self.items@[old(self).items@.len() as int].describe_spec()
                        == item.describe_spec());
                    assert(self.items@[j].describe_spec() == item.describe_spec());
                }
            }
            assert(self@ =~= old(self)@.push(item.describe_spec()));
        }
    }

    /// How many objects are held.
    pub fn len(&self) -> (r: usize)
        ensures
            r == self@.len(),
    {
        self.items.len()
    }

    /// Invoke the describe operation on every element, in insertion order:
    /// the result lists each object's text at the index it was appended at.
    pub fn describe_all(&self) -> (r: Vec<String>)
        ensures
            r@.len() == self@.len(),
            forall|i: int| 0 <= i < r@.len() ==> r@[i]@ == self@[i],
    {
        let mut r: Vec<String> = Vec::new();
        for i in 0..self.items.len()
            invariant
                r@.len() == i,
                forall|j: int| 0 <= j < i ==> r@[j]@ == self@[j],
        {
            r.push(self.items[i].describe());
        }
        r
    }
}

} // verus!
