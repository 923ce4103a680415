//! Shared header and body access for the request and the response: one
//! interface, implemented once per concrete type.
use vstd::prelude::*;

use crate::strmap::StringMap;

verus! {

/// The capability set a wire package offers: read and replace its
/// headers, and set or read its body.  `Body` is the body type the
/// package carries.  Each implementation states the exact meaning of
/// every method over its own view.
pub trait Package<Body> {
    /// A copy of the headers of the package.
    fn get_header_list(&self) -> StringMap;

    /// Replaces all the headers of the package.
    fn set_header_list(&mut self, headers: StringMap);

    /// Sets the body of the package.
    fn set_body(&mut self, body: Body);

    /// A copy of the body of the package, if it has one.
    fn get_body(&self) -> Option<Body>;

    /// Binds a header key to a value, overwriting any previous value
    /// of the same key.
    fn add_header(&mut self, key: &str, value: &str);

    /// True when the package has a header with the given key.
    fn has_header(&self, key: &str) -> bool;

    /// Removes the header from a copy of the header list; the package
    /// itself is left unchanged.
    fn remove_header(&mut self, key: &str);
}

} // verus!
