//! The routing tree: route registration, path resolution and dispatch.
//!
//! Dispatch itself never touches the file system: when a request falls
//! through to static serving, dispatch hands back the candidate file
//! (root and sanitized relative path) and the caller, after reading
//! the file, finishes with [`resolve_static`].
use vstd::prelude::*;

#[allow(missing_docs)]
pub mod route;

pub use route::Route;
pub use route::RouteV;

use crate::request::MethodV;
use crate::request::Request;
use crate::response::spec_extension_to_mime;
use crate::response::Response;
use crate::response::ResponseV;
use crate::response::Status;
use crate::response::StatusV;
use crate::strutil::contains_seq;
use crate::strutil::find_char;
use crate::strutil::find_last_char;
use crate::strutil::first_index_of;
use crate::strutil::last_index_of;
use crate::strutil::str_contains;
use crate::strutil::str_eq;
use crate::strutil::str_strip_prefix_rep;
use crate::strutil::strip_prefix_rep;
use crate::Error;

verus! {

/// Everything that can go wrong while routing a request.
#[derive(Debug)]
pub enum RouterError {
    /// No handler, child router or static file matched; carries the
    /// route that was asked for.
    RouteNotFound(Route),
}

/// The abstract value of a `RouterError`.
#[allow(missing_docs)]
pub enum RouterErrorV {
    RouteNotFound(RouteV),
}

impl View for RouterError {
    type V = RouterErrorV;

    open spec fn view(&self) -> RouterErrorV {
        match self {
            RouterError::RouteNotFound(route) => RouterErrorV::RouteNotFound(route@),
        }
    }
}

/// A candidate static file that dispatch resolved a request to: the
/// configured root, the sanitized relative path under it, and the
/// route to report if the file does not exist.
#[derive(Debug)]
pub struct StaticCandidate {
    /// The configured static root, as registered.
    pub root: String,
    /// The relative path under the root, with its leading slash.
    pub rel_path: String,
    /// The route dispatch was asked for, for the not-found report.
    pub route: Route,
}

/// What dispatch produced: a finished response from a handler, or a
/// static file candidate for the caller to probe.
#[derive(Debug)]
pub enum Dispatch {
    /// A handler matched and produced this response.
    Response(Response),
    /// No handler or child matched, and a static root is configured:
    /// the caller reads the candidate file and calls
    /// [`resolve_static`].
    Static(StaticCandidate),
}

/// What path resolution decides for a (method, path) at a router
/// node.
pub enum Found<F> {
    /// A handler of this node matches; carries the handler and the
    /// node's default response template, if one was set.
    Handler(F, Option<Response>),
    /// Static serving takes over; carries the static root and the
    /// sanitized relative path.
    StaticFile(Seq<char>, Seq<char>),
    /// Nothing matched.
    NotFound,
}

/// The request path relative to a node: the node's prefix stripped
/// from the front (repeatedly, as `trim_start_matches` does), and a
/// leading slash restored if stripping removed it.
pub open spec fn normalize_rel(path: Seq<char>, prefix: Seq<char>) -> Seq<char> {
    let stripped = strip_prefix_rep(path, prefix);
    if stripped.len() > 0 && stripped[0] == '/' {
        stripped
    } else {
        seq!['/'] + stripped
    }
}

/// The child key of a relative path: its first slash-delimited
/// segment, with the leading slash.
pub open spec fn child_key(rel: Seq<char>) -> Seq<char> {
    match first_index_of(rel.skip(1), '/') {
        Some(i) => rel.take(i + 1),
        None => rel,
    }
}

/// True when the relative path holds one of the patterns the static
/// server refuses, a guard against leaving the static root.
pub open spec fn has_unsafe_pattern(rel: Seq<char>) -> bool {
    ||| contains_seq(rel, "../"@)
    ||| contains_seq(rel, "..\\"@)
    ||| contains_seq(rel, ".\\"@)
    ||| contains_seq(rel, "~"@)
    ||| contains_seq(rel, "//"@)
    ||| contains_seq(rel, "\\"@)
    ||| contains_seq(rel, ":"@)
    ||| contains_seq(rel, "*"@)
}

/// The handler of the first route with the given key, if any.
pub open spec fn find_route<F>(rs: Seq<(RouteV, F)>, key: RouteV) -> Option<F>
    decreases rs.len(),
{
    if rs.len() == 0 {
        None
    } else if rs.first().0 == key {
        Some(rs.first().1)
    } else {
        find_route(rs.drop_first(), key)
    }
}

/// Routes after a registration: the first route with the same key is
/// overwritten in place, a new key is appended.
pub open spec fn route_insert<F>(rs: Seq<(RouteV, F)>, key: RouteV, f: F) -> Seq<(RouteV, F)>
    decreases rs.len(),
{
    if rs.len() == 0 {
        seq![(key, f)]
    } else if rs.first().0 == key {
        seq![(key, f)] + rs.drop_first()
    } else {
        seq![rs.first()] + route_insert(rs.drop_first(), key, f)
    }
}

/// The first child router registered under the given key, if any.
pub open spec fn find_child<F: Fn(Request, Response) -> Response + Copy>(cs: Seq<Router<F>>, key: Seq<char>) -> Option<Router<F>>
    decreases cs.len(),
{
    if cs.len() == 0 {
        None
    } else if cs.first().spec_path() == key {
        Some(cs.first())
    } else {
        find_child(cs.drop_first(), key)
    }
}

/// Children after a registration: the first child with the same path
/// is replaced, a new path is appended.
pub open spec fn child_insert<F: Fn(Request, Response) -> Response + Copy>(cs: Seq<Router<F>>, child: Router<F>) -> Seq<Router<F>>
    decreases cs.len(),
{
    if cs.len() == 0 {
        seq![child]
    } else if cs.first().spec_path() == child.spec_path() {
        seq![child] + cs.drop_first()
    } else {
        seq![cs.first()] + child_insert(cs.drop_first(), child)
    }
}

proof fn lemma_find_route_at<F>(rs: Seq<(RouteV, F)>, key: RouteV, i: int)
    requires
        0 <= i <= rs.len(),
        forall|j: int| 0 <= j < i ==> (#[trigger] rs[j]).0 != key,
        i < rs.len() ==> rs[i].0 == key,
    ensures
        i < rs.len() ==> find_route(rs, key) == Some(rs[i].1),
        i == rs.len() ==> find_route(rs, key) is None,
    decreases rs.len(),
{
    if rs.len() > 0 && rs.first().0 != key {
        let d = rs.drop_first();
        assert(forall|j: int| 0 <= j < i - 1 ==> (#[trigger] d[j]).0 == rs[j + 1].0);
        lemma_find_route_at(d, key, i - 1);
    }
}

proof fn lemma_route_insert_at<F>(rs: Seq<(RouteV, F)>, key: RouteV, f: F, i: int)
    requires
        0 <= i <= rs.len(),
        forall|j: int| 0 <= j < i ==> (#[trigger] rs[j]).0 != key,
        i < rs.len() ==> rs[i].0 == key,
    ensures
        i < rs.len() ==> route_insert(rs, key, f) == rs.update(i, (key, f)),
        i == rs.len() ==> route_insert(rs, key, f) == rs.push((key, f)),
    decreases rs.len(),
{
    if rs.len() == 0 {
        assert(route_insert(rs, key, f) =~= rs.push((key, f)));
    } else if rs.first().0 == key {
        assert(i == 0);
        assert(seq![(key, f)] + rs.drop_first() =~= rs.update(0, (key, f)));
    } else {
        let d = rs.drop_first();
        assert(forall|j: int| 0 <= j < i - 1 ==> (#[trigger] d[j]).0 == rs[j + 1].0);
        lemma_route_insert_at(d, key, f, i - 1);
        if i < rs.len() {
            assert(seq![rs.first()] + d.update(i - 1, (key, f)) =~= rs.update(i, (key, f)));
        } else {
            assert(seq![rs.first()] + d.push((key, f)) =~= rs.push((key, f)));
        }
    }
}

proof fn lemma_find_child_at<F: Fn(Request, Response) -> Response + Copy>(cs: Seq<Router<F>>, key: Seq<char>, i: int)
    requires
        0 <= i <= cs.len(),
        forall|j: int| 0 <= j < i ==> (#[trigger] cs[j]).spec_path() != key,
        i < cs.len() ==> cs[i].spec_path() == key,
    ensures
        i < cs.len() ==> find_child(cs, key) == Some(cs[i]),
        i == cs.len() ==> find_child(cs, key) is None,
    decreases cs.len(),
{
    if cs.len() > 0 && cs.first().spec_path() != key {
        let d = cs.drop_first();
        assert(forall|j: int| 0 <= j < i - 1 ==> #[trigger] d[j] == cs[j + 1]);
        lemma_find_child_at(d, key, i - 1);
    }
}

proof fn lemma_child_insert_at<F: Fn(Request, Response) -> Response + Copy>(cs: Seq<Router<F>>, child: Router<F>, i: int)
    requires
        0 <= i <= cs.len(),
        forall|j: int| 0 <= j < i ==> (#[trigger] cs[j]).spec_path() != child.spec_path(),
        i < cs.len() ==> cs[i].spec_path() == child.spec_path(),
    ensures
        i < cs.len() ==> child_insert(cs, child) == cs.update(i, child),
        i == cs.len() ==> child_insert(cs, child) == cs.push(child),
    decreases cs.len(),
{
    if cs.len() == 0 {
        assert(child_insert(cs, child) =~= cs.push(child));
    } else if cs.first().spec_path() == child.spec_path() {
        assert(i == 0);
        assert(seq![child] + cs.drop_first() =~= cs.update(0, child));
    } else {
        let d = cs.drop_first();
        assert(forall|j: int| 0 <= j < i - 1 ==> #[trigger] d[j] == cs[j + 1]);
        lemma_child_insert_at(d, child, i - 1);
        if i < cs.len() {
            assert(seq![cs.first()] + d.update(i - 1, child) =~= cs.update(i, child));
        } else {
            assert(seq![cs.first()] + d.push(child) =~= cs.push(child));
        }
    }
}

/// A find_child result is one of the children.
proof fn lemma_find_child_element<F: Fn(Request, Response) -> Response + Copy>(cs: Seq<Router<F>>, key: Seq<char>)
    ensures
        match find_child(cs, key) {
            Some(c) => exists|i: int| 0 <= i < cs.len() && c == #[trigger] cs[i],
            None => true,
        },
    decreases cs.len(),
{
    if cs.len() > 0 && cs.first().spec_path() != key {
        lemma_find_child_element(cs.drop_first(), key);
        match find_child(cs.drop_first(), key) {
            Some(c) => {
                let i = choose|i: int|
                    0 <= i < cs.drop_first().len() && c == #[trigger] cs.drop_first()[i];
                assert(c == cs[i + 1]);
            },
            None => {},
        }
    }
}

/// The response template a handler starts from: the node's default
/// response if one was set, else a fresh `OK` response.
pub open spec fn template_view(templ: Option<Response>) -> ResponseV {
    match templ {
        Some(d) => d@,
        None => ResponseV {
            status: StatusV::OK,
            headers: Seq::<(Seq<char>, Seq<char>)>::empty(),
            body: None,
        },
    }
}

/// One node of the routing tree: its own path prefix, the handlers
/// registered on it, its child routers, an optional default response
/// template, and an optional static file root.  `F` is the handler
/// type, a function from a request and a response template to a
/// response.
pub struct Router<F> {
    path: String,
    routes: Vec<(Route, F)>,
    routers: Vec<Router<F>>,
    default_response: Option<Response>,
    static_path: Option<String>,
}

impl<F: Fn(Request, Response) -> Response + Copy> Router<F> {
    /// The node's own path prefix.
    pub closed spec fn spec_path(&self) -> Seq<char> {
        self.path@
    }

    /// The registered routes and their handlers, in registration
    /// order.
    pub closed spec fn spec_routes(&self) -> Seq<(RouteV, F)> {
        self.routes@.map_values(|p: (Route, F)| (p.0@, p.1))
    }

    /// The child routers, in registration order.
    pub closed spec fn spec_children(&self) -> Seq<Router<F>> {
        self.routers@
    }

    /// The default response template, if one was set.
    pub closed spec fn spec_default(&self) -> Option<Response> {
        self.default_response
    }

    /// The static file root, if one was set.
    pub closed spec fn spec_static(&self) -> Option<Seq<char>> {
        match self.static_path {
            Some(p) => Some(p@),
            None => None,
        }
    }

    /// Every handler in the tree accepts every request and every
    /// response template.
    pub open spec fn wf(&self) -> bool
        decreases *self,
    {
        &&& (forall|i: int, req: Request, res: Response|
            0 <= i < self.spec_routes().len() ==> #[trigger] call_requires(
                self.spec_routes()[i].1,
                (req, res),
            ))
        &&& (forall|j: int|
            0 <= j < self.spec_children().len() ==> (#[trigger] self.spec_children()[j]).wf())
    }

    /// What path resolution decides for a (method, path) at this
    /// node: its own handlers first, then the child whose key matches
    /// the first path segment, then static serving behind the
    /// traversal guard, and failing all three, nothing.
    pub open spec fn spec_find(&self, method: MethodV, path: Seq<char>) -> Found<F>
        decreases *self,
        via Self::spec_find_dec
    {
        let rel = normalize_rel(path, self.spec_path());
        match find_route(self.spec_routes(), RouteV { method: method, path: rel }) {
            Some(f) => Found::Handler(f, self.spec_default()),
            None => match find_child(self.spec_children(), child_key(rel)) {
                Some(child) => child.spec_find(method, path),
                None => match self.spec_static() {
                    Some(root) => if has_unsafe_pattern(rel) {
                        Found::NotFound
                    } else {
                        Found::StaticFile(root, rel)
                    },
                    None => Found::NotFound,
                },
            },
        }
    }

    #[via_fn]
    proof fn spec_find_dec(&self, method: MethodV, path: Seq<char>) {
        broadcast use vstd::std_specs::vec::axiom_vec_index_decreases;

        let rel = normalize_rel(path, self.spec_path());
        if find_route(self.spec_routes(), RouteV { method: method, path: rel }) is None {
            lemma_find_child_element(self.spec_children(), child_key(rel));
            match find_child(self.spec_children(), child_key(rel)) {
                Some(child) => {
                    let i = choose|i: int|
                        0 <= i < self.spec_children().len() && child == #[trigger] self.spec_children()[i];
                    assert(decreases_to!(*self => self.routers));
                    assert(decreases_to!(self.routers => self.routers@[i]));
                },
                None => {},
            }
        }
    }

    /// A fresh router node rooted at the given path, with no routes,
    /// no children, no default response and no static root.
    pub fn new(path: String) -> (r: Router<F>)
        ensures
            r.spec_path() == path@,
            r.spec_routes() == Seq::<(RouteV, F)>::empty(),
            r.spec_children() == Seq::<Router<F>>::empty(),
            r.spec_default() is None,
            r.spec_static() is None,
            r.wf(),
    {
        let r = Router {
            path,
            routes: Vec::new(),
            routers: Vec::new(),
            default_response: None,
            static_path: None,
        };
        proof {
            assert(r.spec_routes() =~= Seq::<(RouteV, F)>::empty());
            assert(r.spec_children() =~= Seq::<Router<F>>::empty());
        }
        r
    }

    /// Registers a handler for a route; a handler already registered
    /// for the same route is overwritten silently.  The handler must
    /// accept every request and every response template.
    pub fn handle_route(&mut self, route: Route, handler: F)
        requires
            old(self).wf(),
            forall|req: Request, res: Response| #[trigger] call_requires(handler, (req, res)),
        ensures
            final(self).wf(),
            final(self).spec_routes() == route_insert(old(self).spec_routes(), route@, handler),
            final(self).spec_path() == old(self).spec_path(),
            final(self).spec_children() == old(self).spec_children(),
            final(self).spec_default() == old(self).spec_default(),
            final(self).spec_static() == old(self).spec_static(),
    {
        let ghost rs = self.spec_routes();
        let mut i: usize = 0;
        while i < self.routes.len()
            invariant
                0 <= i <= self.routes.len(),
                *self == *old(self),
                rs == self.spec_routes(),
                rs.len() == self.routes@.len(),
                forall|j: int| 0 <= j < i ==> (#[trigger] rs[j]).0 != route@,
                forall|req: Request, res: Response| #[trigger] call_requires(handler, (req, res)),
                old(self).wf(),
            decreases self.routes.len() - i,
        {
            if self.routes[i].0.same_as(&route) {
                proof {
                    lemma_route_insert_at(rs, route@, handler, i as int);
                }
                let ghost idx = i as int;
                self.routes[i] = (route, handler);
                proof {
                    assert(self.spec_routes() =~= rs.update(idx, (route@, handler)));
                    assert forall|l: int, req: Request, res: Response|
                        0 <= l < self.spec_routes().len() implies #[trigger] call_requires(
                        self.spec_routes()[l].1,
                        (req, res),
                    ) by {
                        if l != idx {
                            assert(call_requires(rs[l].1, (req, res)));
                        }
                    }
                    assert forall|l: int|
                        0 <= l < self.spec_children().len() implies (
                    #[trigger] self.spec_children()[l]).wf() by {
                        assert(old(self).spec_children()[l].wf());
                    }
                    assert(self.wf());
                }
                return ;
            }
            proof {
                assert(rs[i as int].0 != route@);
            }
            i += 1;
        }
        proof {
            lemma_route_insert_at(rs, route@, handler, rs.len() as int);
        }
        self.routes.push((route, handler));
        proof {
            assert(self.spec_routes() =~= rs.push((route@, handler)));
            assert forall|l: int, req: Request, res: Response|
                0 <= l < self.spec_routes().len() implies #[trigger] call_requires(
                self.spec_routes()[l].1,
                (req, res),
            ) by {
                if l < rs.len() {
                    assert(call_requires(rs[l].1, (req, res)));
                }
            }
            assert forall|l: int|
                0 <= l < self.spec_children().len() implies (
            #[trigger] self.spec_children()[l]).wf() by {
                assert(old(self).spec_children()[l].wf());
            }
            assert(self.wf());
        }
    }

    /// Mounts a child router under its own path; a child already
    /// mounted under the same path is replaced silently.
    pub fn handle_router(&mut self, router: Router<F>)
        requires
            old(self).wf(),
            router.wf(),
        ensures
            final(self).wf(),
            final(self).spec_children() == child_insert(old(self).spec_children(), router),
            final(self).spec_path() == old(self).spec_path(),
            final(self).spec_routes() == old(self).spec_routes(),
            final(self).spec_default() == old(self).spec_default(),
            final(self).spec_static() == old(self).spec_static(),
    {
        let ghost cs = self.spec_children();
        let ghost child = router;
        let mut i: usize = 0;
        while i < self.routers.len()
            invariant
                0 <= i <= self.routers.len(),
                *self == *old(self),
                cs == self.spec_children(),
                cs.len() == self.routers@.len(),
                child == router,
                router.wf(),
                old(self).wf(),
                forall|j: int| 0 <= j < i ==> (#[trigger] cs[j]).spec_path() != child.spec_path(),
            decreases self.routers.len() - i,
        {
            if str_eq(self.routers[i].path.as_str(), router.path.as_str()) {
                proof {
                    lemma_child_insert_at(cs, child, i as int);
                }
                let ghost idx = i as int;
                self.routers[i] = router;
                proof {
                    assert(self.spec_children() =~= cs.update(idx, child));
                    assert forall|l: int| 0 <= l < self.spec_children().len() implies (
                    #[trigger] self.spec_children()[l]).wf() by {
                        if l != idx {
                            assert(cs[l].wf());
                        }
                    }
                    assert forall|l: int, req: Request, res: Response|
                        0 <= l < self.spec_routes().len() implies #[trigger] call_requires(
                        self.spec_routes()[l].1,
                        (req, res),
                    ) by {
                        assert(call_requires(old(self).spec_routes()[l].1, (req, res)));
                    }
                    assert(self.wf());
                }
                return ;
            }
            i += 1;
        }
        proof {
            lemma_child_insert_at(cs, child, cs.len() as int);
        }
        self.routers.push(router);
        proof {
            assert(self.spec_children() =~= cs.push(child));
            assert forall|l: int| 0 <= l < self.spec_children().len() implies (
            #[trigger] self.spec_children()[l]).wf() by {
                if l < cs.len() {
                    assert(cs[l].wf());
                }
            }
            assert forall|l: int, req: Request, res: Response|
                0 <= l < self.spec_routes().len() implies #[trigger] call_requires(
                self.spec_routes()[l].1,
                (req, res),
            ) by {
                assert(call_requires(old(self).spec_routes()[l].1, (req, res)));
            }
            assert(self.wf());
        }
    }

    /// Registers a directory to serve files from when no route or
    /// child matches.
    pub fn handle_static(&mut self, path: &str)
        requires
            old(self).wf(),
        ensures
            final(self).wf(),
            final(self).spec_static() == Some(path@),
            final(self).spec_path() == old(self).spec_path(),
            final(self).spec_routes() == old(self).spec_routes(),
            final(self).spec_children() == old(self).spec_children(),
            final(self).spec_default() == old(self).spec_default(),
    {
        self.static_path = Some(path.to_owned());
        proof {
            assert(self.spec_routes() == old(self).spec_routes());
            assert(self.spec_children() == old(self).spec_children());
            assert forall|j: int|
                0 <= j < self.spec_children().len() implies (
            #[trigger] self.spec_children()[j]).wf() by {
                assert(old(self).spec_children()[j].wf());
            }
            assert(self.wf());
        }
    }

    /// Sets the response template handlers of this node start from.
    pub fn set_default_response(&mut self, response: Response)
        requires
            old(self).wf(),
        ensures
            final(self).wf(),
            final(self).spec_default() == Some(response),
            final(self).spec_path() == old(self).spec_path(),
            final(self).spec_routes() == old(self).spec_routes(),
            final(self).spec_children() == old(self).spec_children(),
            final(self).spec_static() == old(self).spec_static(),
    {
        self.default_response = Some(response);
        proof {
            assert(self.spec_routes() == old(self).spec_routes());
            assert(self.spec_children() == old(self).spec_children());
            assert forall|j: int|
                0 <= j < self.spec_children().len() implies (
            #[trigger] self.spec_children()[j]).wf() by {
                assert(old(self).spec_children()[j].wf());
            }
            assert(self.wf());
        }
    }

    /// The terminal failure of dispatch: a `RouteNotFound` carrying
    /// the request's own route.
    pub fn not_found_handler(request: Request) -> (r: Result<Response, Error>)
        ensures
            r matches Err(Error::RouterError(re)) && re@ == RouterErrorV::RouteNotFound(
                RouteV { method: request@.method, path: request@.path },
            ),
    {
        proof {
            crate::request::lemma_request_view(&request);
        }
        let route = Route::new(request.path.method.clone(), request.path.path.as_str());
        Err(Error::RouterError(RouterError::RouteNotFound(route)))
    }

    /// What `handle_request` promises: its result, case by case of
    /// what `spec_find` decides for the request.
    pub open spec fn dispatch_post(&self, request: Request, r: Result<Dispatch, Error>) -> bool {
        match self.spec_find(request@.method, request@.path) {
            Found::Handler(f, templ) => r matches Ok(Dispatch::Response(resp)) && (exists|
                t: Response,
            |
                t@ == template_view(templ) && #[trigger] call_ensures(f, (request, t), resp)),
            Found::StaticFile(root, rel) => r matches Ok(Dispatch::Static(c)) && c.root@ == root
                && c.rel_path@ == rel && c.route@ == (RouteV {
                method: request@.method,
                path: request@.path,
            }),
            Found::NotFound => r matches Err(Error::RouterError(re)) && re
                @ == RouterErrorV::RouteNotFound(
                RouteV { method: request@.method, path: request@.path },
            ),
        }
    }

    /// Resolves a request against this node, as `spec_find` decides:
    /// a matching handler of this node runs on the request and this
    /// node's response template; otherwise a child whose key matches
    /// the first path segment takes over with the unmodified request;
    /// otherwise, behind the traversal guard, a configured static
    /// root yields a candidate file for the caller to probe; and
    /// failing all three, a `RouteNotFound` carries the request's own
    /// route.
    #[verifier::loop_isolation(false)]
    #[verifier::rlimit(60)]
    #[verifier::spinoff_prover]
    pub fn handle_request(&self, request: Request) -> (r: Result<Dispatch, Error>)
        requires
            self.wf(),
        ensures
            self.dispatch_post(request, r),
        decreases *self,
    {
        proof {
            reveal_strlit("/");
            crate::request::lemma_request_view(&request);
        }
        // the request path relative to this node
        let stripped = str_strip_prefix_rep(request.path.path.as_str(), self.path.as_str());
        let sn = stripped.unicode_len();
        let rel: String = if sn > 0 && stripped.get_char(0) == '/' {
            stripped.to_owned()
        } else {
            let mut s = String::from_str("/");
            s.append(stripped);
            proof {
                assert(s@ =~= seq!['/'] + stripped@);
            }
            s
        };
        let ghost relv = normalize_rel(request@.path, self.spec_path());
        proof {
            assert(rel@ == relv);
        }
        // a handler of this node
        let ghost key = RouteV { method: request@.method, path: relv };
        let ghost rs = self.spec_routes();
        let ghost req0 = request;
        let mut i: usize = 0;
        while i < self.routes.len()
            invariant
                0 <= i <= self.routes.len(),
                self.wf(),
                rs == self.spec_routes(),
                rs.len() == self.routes@.len(),
                request == req0,
                key == (RouteV { method: request@.method, path: rel@ }),
                rel@ == relv,
                relv == normalize_rel(request@.path, self.spec_path()),
                request@.method == request.path.method@,
                request@.path == request.path.path@,
                forall|j: int| 0 <= j < i ==> (#[trigger] rs[j]).0 != key,
            decreases self.routes.len() - i,
        {
            if self.routes[i].0.method.same_as(&request.path.method) && str_eq(
                self.routes[i].0.path.as_str(),
                rel.as_str(),
            ) {
                proof {
                    assert(rs[i as int].0 == key);
                    lemma_find_route_at(rs, key, i as int);
                }
                let f = self.routes[i].1;
                let response = match &self.default_response {
                    Some(d) => d.clone(),
                    None => Response::new(Status::OK),
                };
                let ghost templ_clone = response;
                proof {
                    assert(templ_clone@ == template_view(self.spec_default()));
                    assert(self.spec_find(req0@.method, req0@.path) == Found::Handler(
                        f,
                        self.spec_default(),
                    ));
                }
                let out = f(request, response);
                proof {
                    assert(call_ensures(f, (req0, templ_clone), out));
                    assert(exists|t: Response|
                        t@ == template_view(self.spec_default()) && #[trigger] call_ensures(
                            f,
                            (req0, t),
                            out,
                        )) by {
                        assert(templ_clone@ == template_view(self.spec_default())
                            && call_ensures(f, (req0, templ_clone), out));
                    }
                    assert(self.spec_find(req0@.method, req0@.path) == Found::Handler(
                        f,
                        self.spec_default(),
                    ));
                    assert(match self.spec_find(req0@.method, req0@.path) {
                        Found::Handler(ff, tt) => ff == f && tt == self.spec_default(),
                        _ => false,
                    });
                    let rr: Result<Dispatch, Error> = Ok(Dispatch::Response(out));
                    assert(rr matches Ok(Dispatch::Response(resp)) && resp == out);
                    assert(self.dispatch_post(req0, rr));
                }
                return Ok(Dispatch::Response(out));
            }
            proof {
                assert(rs[i as int].0 != key);
            }
            i += 1;
        }
        proof {
            lemma_find_route_at(rs, key, rs.len() as int);
        }
        // a child router keyed by the first path segment
        let rn = rel.as_str().unicode_len();
        let tail = rel.as_str().substring_char(1, rn);
        proof {
            assert(tail@ =~= relv.skip(1));
        }
        let seg_end: usize = match find_char(tail, '/') {
            Some(p) => {
                proof {
                    crate::strutil::lemma_first_index_of(relv.skip(1), '/');
                }
                p + 1
            },
            None => rn,
        };
        let key_str = rel.as_str().substring_char(0, seg_end);
        proof {
            if first_index_of(relv.skip(1), '/') is Some {
                assert(key_str@ =~= child_key(relv));
            } else {
                assert(key_str@ =~= relv.take(rn as int));
                assert(relv.take(rn as int) =~= relv);
            }
        }
        let ghost cs = self.spec_children();
        let mut j: usize = 0;
        while j < self.routers.len()
            invariant
                0 <= j <= self.routers.len(),
                self.wf(),
                cs == self.spec_children(),
                cs.len() == self.routers@.len(),
                request == req0,
                request@.method == request.path.method@,
                request@.path == request.path.path@,
                relv == normalize_rel(request@.path, self.spec_path()),
                key_str@ == child_key(relv),
                find_route(
                    self.spec_routes(),
                    RouteV { method: request@.method, path: relv },
                ) is None,
                forall|l: int| 0 <= l < j ==> (#[trigger] cs[l]).spec_path() != key_str@,
            decreases self.routers.len() - j,
        {
            if str_eq(self.routers[j].path.as_str(), key_str) {
                proof {
                    broadcast use vstd::std_specs::vec::axiom_vec_index_decreases;

                    assert(cs[j as int].spec_path() == key_str@);
                    lemma_find_child_at(cs, key_str@, j as int);
                    assert(decreases_to!(*self => self.routers));
                    assert(decreases_to!(self.routers => self.routers@[j as int]));
                }
                return self.routers[j].handle_request(request);
            }
            j += 1;
        }
        proof {
            lemma_find_child_at(cs, key_str@, cs.len() as int);
        }
        // a static file behind the traversal guard
        match &self.static_path {
            Some(static_root) => {
                proof {
                    reveal_strlit("../");
                    reveal_strlit("..\\");
                    reveal_strlit(".\\");
                    reveal_strlit("~");
                    reveal_strlit("//");
                    reveal_strlit("\\");
                    reveal_strlit(":");
                    reveal_strlit("*");
                }
                let unsafe_path = str_contains(rel.as_str(), "../") || str_contains(
                    rel.as_str(),
                    "..\\",
                ) || str_contains(rel.as_str(), ".\\") || str_contains(rel.as_str(), "~")
                    || str_contains(rel.as_str(), "//") || str_contains(rel.as_str(), "\\")
                    || str_contains(rel.as_str(), ":") || str_contains(rel.as_str(), "*");
                if !unsafe_path {
                    let route = Route::new(
                        request.path.method.clone(),
                        request.path.path.as_str(),
                    );
                    return Ok(
                        Dispatch::Static(
                            StaticCandidate { root: static_root.clone(), rel_path: rel, route },
                        ),
                    );
                }
            },
            None => {},
        }
        let route = Route::new(request.path.method.clone(), request.path.path.as_str());
        Err(Error::RouterError(RouterError::RouteNotFound(route)))
    }
}

impl<F: Fn(Request, Response) -> Response + Copy> Default for Router<F> {
    /// A fresh router rooted at `/`.
    fn default() -> (r: Self)
        ensures
            r.spec_path() == "/"@,
            r.spec_routes() == Seq::<(RouteV, F)>::empty(),
            r.spec_children() == Seq::<Router<F>>::empty(),
            r.spec_default() is None,
            r.spec_static() is None,
            r.wf(),
    {
        Router::new(String::from_str("/"))
    }
}

/// A request registered nowhere is turned away: when no route of the
/// node matches the request's relative path, no child is mounted
/// under its first segment, and no static root is set, path
/// resolution yields nothing — and dispatch therefore reports
/// `RouteNotFound` carrying exactly the requested method and path.
pub proof fn lemma_unmatched_request_not_found<F: Fn(Request, Response) -> Response + Copy>(
    router: Router<F>,
    method: MethodV,
    path: Seq<char>,
)
    requires
        find_route(
            router.spec_routes(),
            RouteV { method: method, path: normalize_rel(path, router.spec_path()) },
        ) is None,
        find_child(
            router.spec_children(),
            child_key(normalize_rel(path, router.spec_path())),
        ) is None,
        router.spec_static() is None,
    ensures
        router.spec_find(method, path) == Found::<F>::NotFound,
{
}

/// The extension of the file a relative path names: what follows the
/// last dot of its last slash-delimited component, empty when the
/// component has no dot past its first character.
pub open spec fn extension_of(p: Seq<char>) -> Seq<char> {
    let name = match last_index_of(p, '/') {
        Some(i) => p.skip(i + 1),
        None => p,
    };
    match last_index_of(name, '.') {
        Some(j) => if j > 0 {
            name.skip(j + 1)
        } else {
            Seq::<char>::empty()
        },
        None => Seq::<char>::empty(),
    }
}

/// Finishes static serving once the caller has probed the candidate
/// file: with the file's bytes, a fresh `OK` response carrying them
/// and the MIME type of the file's extension; without them, the
/// `RouteNotFound` of the candidate's route.  When the file exists,
/// its extension must be one the MIME table knows, as file responses
/// require.
pub fn resolve_static(candidate: StaticCandidate, content: Option<Vec<u8>>) -> (r: Result<
    Response,
    Error,
>)
    requires
        content is Some ==> spec_extension_to_mime(extension_of(candidate.rel_path@)) is Some,
    ensures
        (match content {
            Some(bytes) => r matches Ok(resp) && resp@ == (ResponseV {
                status: StatusV::OK,
                headers: seq![
                    (
                        "Content-Type"@,
                        spec_extension_to_mime(extension_of(candidate.rel_path@)).unwrap(),
                    ),
                ],
                body: Some(bytes@),
            }),
            None => r matches Err(Error::RouterError(re)) && re@ == RouterErrorV::RouteNotFound(
                candidate.route@,
            ),
        }),
{
    match content {
        Some(bytes) => {
            let p = candidate.rel_path.as_str();
            let pn = p.unicode_len();
            let name = match find_last_char(p, '/') {
                Some(i) => {
                    proof {
                        crate::strutil::lemma_last_index_of(p@, '/');
                    }
                    p.substring_char(i + 1, pn)
                },
                None => p,
            };
            proof {
                assert(name@ =~= (match last_index_of(p@, '/') {
                    Some(i) => p@.skip(i + 1),
                    None => p@,
                }));
            }
            let nn = name.unicode_len();
            let ext = match find_last_char(name, '.') {
                Some(j) => {
                    proof {
                        crate::strutil::lemma_last_index_of(name@, '.');
                    }
                    if j > 0 {
                        name.substring_char(j + 1, nn)
                    } else {
                        name.substring_char(nn, nn)
                    }
                },
                None => name.substring_char(nn, nn),
            };
            proof {
                assert(ext@ =~= extension_of(candidate.rel_path@));
            }
            let mut resp = Response::new(Status::OK);
            resp.set_file_body(bytes, ext);
            Ok(resp)
        },
        None => Err(Error::RouterError(RouterError::RouteNotFound(candidate.route))),
    }
}

} // verus!
