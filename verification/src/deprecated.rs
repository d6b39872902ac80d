//! The deprecation status a route may carry.

use vstd::prelude::*;

use crate::method::Method;

verus! {

/// Whether a route is deprecated, and if it was superseded, the full
/// (path, method, namespace) reference to its replacement. The replacement's
/// identifier is resolved lazily at emission time, so descriptors may be
/// built in any order.
#[derive(Debug, Clone)]
pub enum Deprecated {
    Simple(bool),
    WithInfo(String, Method, String),
}

/// The mathematical shape of a [`Deprecated`] value.
pub enum DeprecatedView {
    Simple(bool),
    WithInfo(Seq<char>, Method, Seq<char>),
}

impl View for Deprecated {
    type V = DeprecatedView;

    open spec fn view(&self) -> DeprecatedView {
        match self {
            Deprecated::Simple(b) => DeprecatedView::Simple(*b),
            Deprecated::WithInfo(path, method, tag) => DeprecatedView::WithInfo(
                path@,
                *method,
                tag@,
            ),
        }
    }
}

/// Whether a deprecation status marks the route at all.
pub open spec fn dep_is(d: DeprecatedView) -> bool {
    match d {
        DeprecatedView::Simple(b) => b,
        DeprecatedView::WithInfo(_, _, _) => true,
    }
}

impl Deprecated {
    /// Whether this status marks the route as deprecated.
    pub fn is(&self) -> (r: bool)
        ensures
            r == dep_is(self@),
    {
        match self {
            Deprecated::Simple(b) => *b,
            Deprecated::WithInfo(_, _, _) => true,
        }
    }
}

impl Default for Deprecated {
    /// A route is not deprecated unless said otherwise.
    fn default() -> (r: Self)
        ensures
            r@ == DeprecatedView::Simple(false),
    {
        Deprecated::Simple(false)
    }
}

} // verus!
