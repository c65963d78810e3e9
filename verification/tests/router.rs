use axum::body::Body;
use axum::extract::Path;
use axum::http::{Method, Request, StatusCode};
use axum::routing::{on, MethodFilter};
use axum::Router;
use exum::assemble::collect_router;
use exum::param::{Param, ParamPattern, PathType, TypeShape};
use exum::route::{make_route, make_wrapper, HandlerArg, HandlerDecl, RouteBinding};
use tower::ServiceExt;

async fn hello() -> String {
    "hello".to_string()
}

async fn hello_id(Path(id): Path<String>) -> String {
    format!("id={}", id)
}

async fn files(Path(rest): Path<String>) -> String {
    format!("rest={}", rest)
}

fn router_of(table: &[RouteBinding]) -> Router {
    let mut router = Router::new();
    for b in table {
        let method = Method::from_bytes(b.method.as_bytes()).unwrap();
        let filter = MethodFilter::try_from(method).unwrap();
        router = match b.handler.as_str() {
            "hello" => router.route(&b.path, on(filter, hello)),
            "hello_id" => router.route(&b.path, on(filter, hello_id)),
            "files" => router.route(&b.path, on(filter, files)),
            other => panic!("no handler named {}", other),
        };
    }
    router
}

fn ask(router: &Router, method: &str, uri: &str) -> (StatusCode, String) {
    let runtime = tokio::runtime::Builder::new_current_thread().build().unwrap();
    runtime.block_on(async {
        let request = Request::builder().method(method).uri(uri).body(Body::empty()).unwrap();
        let response = router.clone().oneshot(request).await.unwrap();
        let status = response.status();
        let bytes = axum::body::to_bytes(response.into_body(), 1 << 20).await.unwrap();
        (status, String::from_utf8(bytes.to_vec()).unwrap())
    })
}

fn string_param(name: &str) -> Param {
    Param {
        attrs: vec![],
        pattern: ParamPattern::Ident(name.to_string()),
        ty: "String".to_string(),
        shape: TypeShape::Path(PathType { last_segment: "String".to_string(), first_argument: None }),
    }
}

fn declared(path: &str, method: &str, name: &str, inputs: Vec<Param>) -> Vec<RouteBinding> {
    let decl = HandlerDecl { name: name.to_string(), inputs, has_return_type: true };
    make_route(&make_wrapper(path, method), &decl).unwrap().routes
}

#[test]
fn hello_and_hello_id_are_answered_distinctly() {
    let decl = HandlerDecl {
        name: "hello_id".to_string(),
        inputs: vec![string_param("id")],
        has_return_type: true,
    };
    let with_id = make_route(&make_wrapper("/hello/:id", "GET"), &decl).unwrap();
    assert_eq!(with_id.signature.args.len(), 1);
    assert!(matches!(&with_id.signature.args[0], HandlerArg::PathTuple(b) if b[0].name == "id"));
    let routes = vec![declared("/hello", "GET", "hello", vec![]), with_id.routes];
    let router = router_of(&collect_router(&routes, &vec![]));
    assert_eq!(ask(&router, "GET", "/hello"), (StatusCode::OK, "hello".to_string()));
    assert_eq!(ask(&router, "GET", "/hello/42"), (StatusCode::OK, "id=42".to_string()));
    assert_eq!(ask(&router, "POST", "/hello").0, StatusCode::METHOD_NOT_ALLOWED);
    assert_eq!(ask(&router, "GET", "/other").0, StatusCode::NOT_FOUND);
}

#[test]
fn compiled_patterns_are_routable() {
    let routes = vec![
        declared("/static/*rest", "get", "files", vec![string_param("rest")]),
        declared("/\u{4f60}\u{597d}", "get,head", "hello", vec![]),
        declared("a b/{id}", "GET", "hello_id", vec![string_param("id")]),
    ];
    let router = router_of(&collect_router(&vec![], &routes));
    assert_eq!(ask(&router, "GET", "/static/css/site.css"), (StatusCode::OK, "rest=css/site.css".to_string()));
    assert_eq!(ask(&router, "GET", "/%E4%BD%A0%E5%A5%BD"), (StatusCode::OK, "hello".to_string()));
    assert_eq!(ask(&router, "HEAD", "/%E4%BD%A0%E5%A5%BD").0, StatusCode::OK);
    assert_eq!(ask(&router, "GET", "/a%20b/7"), (StatusCode::OK, "id=7".to_string()));
}
