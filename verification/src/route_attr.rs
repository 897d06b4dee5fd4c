//! [`RouteAttr`] — a path and HTTP method, as given by a route attribute
//! such as `#[get("/")]`.  The handler is supplied separately when the route
//! is registered.

use vstd::prelude::*;

verus! {

/// The HTTP method stored in a [`RouteAttr`].
#[derive(Debug, Clone, Copy, PartialEq, Eq)]
pub enum RouteMethod {
    Get,
    Post,
}

/// A descriptor that carries a request path and HTTP method.
#[derive(Debug, Clone, Copy)]
pub struct RouteAttr {
    path: &'static str,
    method: RouteMethod,
}

impl RouteAttr {
    pub closed spec fn path_spec(&self) -> &'static str {
        self.path
    }

    pub closed spec fn method_spec(&self) -> RouteMethod {
        self.method
    }

    /// A descriptor for a GET handler at `path`.
    pub fn get(path: &'static str) -> (r: Self)
        ensures
            r.path_spec() == path,
            r.method_spec() == RouteMethod::Get,
    {
        RouteAttr { path, method: RouteMethod::Get }
    }

    /// A descriptor for a POST handler at `path`.
    pub fn post(path: &'static str) -> (r: Self)
        ensures
            r.path_spec() == path,
            r.method_spec() == RouteMethod::Post,
    {
        RouteAttr { path, method: RouteMethod::Post }
    }

    /// The path stored in this descriptor.
    pub fn path(&self) -> (p: &str)
        ensures
            p@ == self.path_spec()@,
    {
        self.path
    }

    /// The HTTP method stored in this descriptor.
    pub fn method(&self) -> (m: RouteMethod)
        ensures
            m == self.method_spec(),
    {
        self.method
    }
}

} // verus!
