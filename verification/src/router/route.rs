//! The identity a handler is registered under and looked up by: a
//! method together with an exact path string.
use vstd::prelude::*;

use crate::request::Method;
use crate::request::MethodV;

verus! {

/// A (method, path) pair; two routes are the same exactly when both
/// parts match character for character.
#[derive(Debug, PartialEq, Eq, Hash)]
pub struct Route {
    /// The method of the request.
    pub method: Method,
    /// The path of the request.
    pub path: String,
}

/// The abstract value of a `Route`.
pub struct RouteV {
    /// The abstract method.
    pub method: MethodV,
    /// The characters of the path.
    pub path: Seq<char>,
}

impl View for Route {
    type V = RouteV;

    open spec fn view(&self) -> RouteV {
        RouteV { method: self.method@, path: self.path@ }
    }
}

impl Route {
    /// A route from the given method and path.
    pub fn new(method: Method, path: &str) -> (r: Route)
        ensures
            r@ == (RouteV { method: method@, path: path@ }),
    {
        Route { method, path: path.to_owned() }
    }

    /// True when the two routes name the same method and path.
    pub fn same_as(&self, other: &Route) -> (r: bool)
        ensures
            r == (self@ == other@),
    {
        let r = self.method.same_as(&other.method) && crate::strutil::str_eq(
            self.path.as_str(),
            other.path.as_str(),
        );
        proof {
            if self@.method == other@.method && self@.path == other@.path {
                assert(self@ == other@);
            }
        }
        r
    }
}

impl Clone for Route {
    fn clone(&self) -> (r: Self)
        ensures
            r@ == self@,
    {
        Route { method: self.method.clone(), path: self.path.clone() }
    }
}

} // verus!
