use servidor_http::package::Package;
use servidor_http::request::{Method, Request};
use servidor_http::response::{Response, Status};
use servidor_http::router::{resolve_static, Dispatch, Route, Router, RouterError};
use servidor_http::Error;

type Handler = fn(Request, Response) -> Response;

fn root_handler(_req: Request, mut res: Response) -> Response {
    res.set_body_string(String::from("root"));
    res
}

fn child_handler(_req: Request, mut res: Response) -> Response {
    res.set_body_string(String::from("child"));
    res
}

fn echo_path_handler(req: Request, mut res: Response) -> Response {
    res.set_body_string(req.path.path);
    res
}

fn body_of(dispatch: Result<Dispatch, Error>) -> String {
    match dispatch {
        Ok(Dispatch::Response(res)) => {
            String::from_utf8(res.get_body().unwrap_or_default()).unwrap()
        }
        _ => panic!("expected a handler response"),
    }
}

#[test]
fn own_route_is_dispatched() {
    let mut router: Router<Handler> = Router::new(String::from("/"));
    router.handle_route(Route::new(Method::GET, "/"), root_handler);

    let request = Request::new(Method::GET, "/", None);
    assert_eq!(body_of(router.handle_request(request)), "root");
}

#[test]
fn child_router_is_dispatched() {
    let mut router: Router<Handler> = Router::new(String::from("/"));
    router.handle_route(Route::new(Method::GET, "/"), root_handler);

    let mut sub_router: Router<Handler> = Router::new(String::from("/query"));
    sub_router.handle_route(Route::new(Method::GET, "/test"), child_handler);
    router.handle_router(sub_router);

    let request = Request::new(Method::GET, "/query/test", None);
    assert_eq!(body_of(router.handle_request(request)), "child");
}

#[test]
fn unregistered_route_is_not_found() {
    let mut router: Router<Handler> = Router::new(String::from("/"));
    router.handle_route(Route::new(Method::GET, "/"), root_handler);

    let request = Request::new(Method::POST, "/nowhere", None);
    match router.handle_request(request).unwrap_err() {
        Error::RouterError(RouterError::RouteNotFound(route)) => {
            assert_eq!(route, Route::new(Method::POST, "/nowhere"));
        }
        _ => unreachable!(),
    }
}

#[test]
fn handler_beats_child_and_static() {
    let mut router: Router<Handler> = Router::new(String::from("/"));
    router.handle_route(Route::new(Method::GET, "/a"), root_handler);
    router.handle_static("./static");

    let mut sub_router: Router<Handler> = Router::new(String::from("/a"));
    sub_router.handle_route(Route::new(Method::GET, "/"), child_handler);
    router.handle_router(sub_router);

    let request = Request::new(Method::GET, "/a", None);
    assert_eq!(body_of(router.handle_request(request)), "root");
}

#[test]
fn reregistration_overwrites_the_handler() {
    let mut router: Router<Handler> = Router::new(String::from("/"));
    router.handle_route(Route::new(Method::GET, "/"), root_handler);
    router.handle_route(Route::new(Method::GET, "/"), child_handler);

    let request = Request::new(Method::GET, "/", None);
    assert_eq!(body_of(router.handle_request(request)), "child");
}

#[test]
fn handler_receives_the_original_request() {
    let mut router: Router<Handler> = Router::new(String::from("/"));
    router.handle_route(Route::new(Method::GET, "/deep/path"), echo_path_handler);

    let request = Request::new(Method::GET, "/deep/path", None);
    assert_eq!(body_of(router.handle_request(request)), "/deep/path");
}

#[test]
fn static_candidate_is_handed_back() {
    let mut router: Router<Handler> = Router::new(String::from("/"));
    router.handle_static("./static");

    let request = Request::new(Method::GET, "/a.txt", None);
    match router.handle_request(request).unwrap() {
        Dispatch::Static(candidate) => {
            assert_eq!(candidate.root, "./static");
            assert_eq!(candidate.rel_path, "/a.txt");
            assert_eq!(candidate.route, Route::new(Method::GET, "/a.txt"));
        }
        _ => unreachable!(),
    }
}

#[test]
fn static_file_is_served_with_its_mime_type() {
    let mut router: Router<Handler> = Router::new(String::from("/"));
    router.handle_static("./static");

    let request = Request::new(Method::GET, "/a.txt", None);
    let candidate = match router.handle_request(request).unwrap() {
        Dispatch::Static(candidate) => candidate,
        _ => unreachable!(),
    };

    let res = resolve_static(candidate, Some(b"file contents".to_vec())).unwrap();
    assert_eq!(res.status, Status::OK);
    let text = res.to_http_string();
    assert!(text.contains("Content-Type: text/plain"));
    assert_eq!(text.split("\r\n\r\n").last().unwrap(), "file contents");
}

#[test]
fn missing_static_file_is_not_found() {
    let mut router: Router<Handler> = Router::new(String::from("/"));
    router.handle_static("./static");

    let request = Request::new(Method::GET, "/missing.txt", None);
    let candidate = match router.handle_request(request).unwrap() {
        Dispatch::Static(candidate) => candidate,
        _ => unreachable!(),
    };

    match resolve_static(candidate, None).unwrap_err() {
        Error::RouterError(RouterError::RouteNotFound(route)) => {
            assert_eq!(route, Route::new(Method::GET, "/missing.txt"));
        }
        _ => unreachable!(),
    }
}

#[test]
fn traversal_patterns_are_refused() {
    let mut router: Router<Handler> = Router::new(String::from("/"));
    router.handle_static("./static");

    for path in ["/../secret", "/a//b", "/~root", "/c:d", "/x*", "/a\\b"] {
        let request = Request::new(Method::GET, path, None);
        match router.handle_request(request) {
            Err(Error::RouterError(RouterError::RouteNotFound(route))) => {
                assert_eq!(route.path, path);
            }
            _ => panic!("a traversal path must never reach a file"),
        }
    }
}

#[test]
fn default_response_template_is_handed_to_handlers() {
    let mut router: Router<Handler> = Router::new(String::from("/"));
    let mut template = Response::new(Status::OK);
    template.add_header("Server", "Servidor HTTP");
    router.set_default_response(template);
    router.handle_route(Route::new(Method::GET, "/"), keep_template_handler);

    let request = Request::new(Method::GET, "/", None);
    match router.handle_request(request).unwrap() {
        Dispatch::Response(res) => assert!(res.has_header("Server")),
        _ => unreachable!(),
    }
}

fn keep_template_handler(_req: Request, res: Response) -> Response {
    res
}

#[test]
fn not_found_handler_reports_the_route() {
    let request = Request::new(Method::GET, "/gone", None);
    match Router::<Handler>::not_found_handler(request).unwrap_err() {
        Error::RouterError(RouterError::RouteNotFound(route)) => {
            assert_eq!(route, Route::new(Method::GET, "/gone"));
        }
        _ => unreachable!(),
    }
}
