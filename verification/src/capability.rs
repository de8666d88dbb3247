//! Capability contracts at the type level, and static dispatch over them.
//!
//! A capability is a trait whose operations carry full functional contracts:
//! a required operation states its result against a per-type specification
//! function, and a defaulted operation carries a body whose behaviour is
//! pinned for every implementer that inherits it.  Generic functions bounded
//! by a capability are resolved by monomorphization: no runtime indirection.

use vstd::prelude::*;
use vstd::string::StringExecFns;

verus! {

/// The summary capability: a required `summarize` operation and a defaulted
/// `summarize_author` operation.
pub trait Summary {
    /// The summary text an implementer promises to produce.
    spec fn summary_spec(&self) -> Seq<char>;

    /// Required operation: every implementer supplies its own body.
    fn summarize(&self) -> (r: String)
        ensures
            r@ == self.summary_spec(),
    ;

    /// Defaulted operation: inherited unless the implementer overrides it.
    fn summarize_author(&self) -> (r: String)
        default_ensures
            r@ == "Read more..."@,
    {
        "Read more...".to_owned()
    }
}

/// The describe capability: renders a value as human-readable text.
pub trait Describe {
    /// The text an implementer promises to render.
    spec fn describe_spec(&self) -> Seq<char>;

    /// Required operation: produce the rendered text.
    fn describe(&self) -> (r: String)
        ensures
            r@ == self.describe_spec(),
    ;
}

/// An article: a concrete type satisfying the summary capability, overriding
/// the defaulted author operation.
pub struct Post {
    /// The article's title.
    pub title: String,
    /// The article's author.
    pub author: String,
    /// The article's body text.
    pub content: String,
}

impl Summary for Post {
    open spec fn summary_spec(&self) -> Seq<char> {
        "文章:"@ + self.title@ + ", 作者:"@ + self.author@
    }

    fn summarize(&self) -> (r: String) {
        let mut r = "文章:".to_owned();
        r.append(self.title.as_str());
        r.append(", 作者:");
        r.append(self.author.as_str());
        r
    }

    /// Overrides the default selectively; `summarize` is untouched.
    fn summarize_author(&self) -> (r: String)
        ensures
            r@ == "作者:"@ + self.author@,
    {
        let mut r = "作者:".to_owned();
        r.append(self.author.as_str());
        r
    }
}

/// Static dispatch, parameter-position form: accepts a value of any type
/// satisfying the summary capability.
pub fn notify(item: &impl Summary) -> (r: String)
    ensures
        r@ == "Breaking news! "@ + item.summary_spec(),
{
    let mut r = "Breaking news! ".to_owned();
    let s = item.summarize();
    r.append(s.as_str());
    r
}

/// Static dispatch, explicit bound form: the desugaring of `notify`.  The two
/// entry points resolve identically, as their equal contracts state.
pub fn notify_1<T: Summary>(item: &T) -> (r: String)
    ensures
        r@ == "Breaking news! "@ + item.summary_spec(),
{
    let mut r = "Breaking news! ".to_owned();
    let s = item.summarize();
    r.append(s.as_str());
    r
}

/// A parameter under two independent capability bounds at once.
pub fn notify_2(item: &(impl Summary + Describe)) {
}

/// Independent bounds on two distinct parameters.
pub fn smoe_funcation<T: Describe + Clone, U: Clone>(t: &T, u: &U) {
}

/// The `where`-clause spelling of the same bounds.
pub fn where_funcation<T, U>(t: &T, u: &U) where
    T: Describe + Clone,
    U: Clone,
{
}

/// An opaque contract-typed return: the one concrete type this function may
/// yield is `Post`, committed to on every code path.
pub fn returns_summarizable() -> (r: Post)
    ensures
        r.title@ == "title"@,
        r.author@ == "author"@,
        r.content@ == "content"@,
{
    Post {
        title: "title".to_owned(),
        author: "author".to_owned(),
        content: "content".to_owned(),
    }
}

} // verus!
