use exum::assemble::{collect_router, collect_routes, resolve};
use exum::declare::{
    controller, service, state, ControllerDecl, ControllerItem, ControllerMethod, MethodArg,
    MethodAttr, MethodSig, ServiceDecl,
};
use exum::args::StateArgs;
use exum::param::{Param, ParamPattern, PathType, TypeShape};
use exum::plan::{DeclError, Extractor, Injection, Lookup, PathBinding};
use exum::route::{
    build_router_expr, build_signature, collect_methods, controller_update_attr, copy_args,
    extract_methods, extract_path, make_route, make_wrapper, valid_route_macro, ArgValue,
    HandlerArg, HandlerDecl, MetaArg, RouteAttrType, RouteBinding,
};

fn nv(name: &str, value: ArgValue) -> MetaArg {
    MetaArg::NameValue { name: name.to_string(), value }
}

fn text(s: &str) -> ArgValue {
    ArgValue::Str(s.to_string())
}

fn strings(items: &[&str]) -> Vec<String> {
    items.iter().map(|s| s.to_string()).collect()
}

fn binding(path: &str, method: &str, handler: &str) -> RouteBinding {
    RouteBinding { path: path.to_string(), method: method.to_string(), handler: handler.to_string() }
}

fn plain(name: &str, ty: &str) -> Param {
    Param {
        attrs: vec![],
        pattern: ParamPattern::Ident(name.to_string()),
        ty: ty.to_string(),
        shape: TypeShape::Path(PathType { last_segment: ty.to_string(), first_argument: None }),
    }
}

fn handler(name: &str, inputs: Vec<Param>) -> HandlerDecl {
    HandlerDecl { name: name.to_string(), inputs, has_return_type: false }
}

#[test]
fn route_attribute_names() {
    assert_eq!(valid_route_macro("route"), RouteAttrType::Route);
    for m in ["get", "post", "put", "delete", "patch", "head", "options", "trace"] {
        assert_eq!(valid_route_macro(m), RouteAttrType::Derive(m.to_string()));
    }
    assert_eq!(valid_route_macro("GET"), RouteAttrType::Not);
    assert_eq!(valid_route_macro("doc"), RouteAttrType::Not);
    assert_eq!(valid_route_macro(""), RouteAttrType::Not);
}

#[test]
fn methods_from_string_and_array() {
    assert_eq!(collect_methods(&text("get")), Ok(strings(&["GET"])));
    assert_eq!(collect_methods(&text("get,post")), Ok(strings(&["GET", "POST"])));
    assert_eq!(collect_methods(&text("get, post")), Ok(strings(&["GET", " POST"])));
    assert_eq!(collect_methods(&text("")), Ok(strings(&[""])));
    assert_eq!(
        collect_methods(&ArgValue::Array(vec![Some("put".to_string()), Some("Delete".to_string())])),
        Ok(strings(&["PUT", "DELETE"]))
    );
    assert_eq!(collect_methods(&ArgValue::Array(vec![])), Ok(vec![]));
    assert_eq!(
        collect_methods(&ArgValue::Array(vec![Some("put".to_string()), None])),
        Err(DeclError::MethodElement)
    );
    assert_eq!(collect_methods(&ArgValue::Other), Err(DeclError::MethodList));
}

#[test]
fn methods_default_to_post() {
    assert_eq!(extract_methods(&vec![]), Ok(strings(&["POST"])));
    assert_eq!(extract_methods(&vec![nv("path", text("/x")), MetaArg::Other]), Ok(strings(&["POST"])));
    assert_eq!(
        extract_methods(&vec![nv("method", ArgValue::Array(vec![]))]),
        Ok(strings(&["POST"]))
    );
    assert_eq!(
        extract_methods(&vec![nv("method", text("get")), nv("method", text("head,put"))]),
        Ok(strings(&["GET", "HEAD", "PUT"]))
    );
    assert_eq!(
        extract_methods(&vec![nv("method", ArgValue::Other), nv("method", text("get"))]),
        Err(DeclError::MethodList)
    );
}

#[test]
fn path_of_route_arguments() {
    assert_eq!(extract_path(&vec![]), "/");
    assert_eq!(extract_path(&vec![nv("path", text("/a/:id"))]), "/a/{id}");
    assert_eq!(extract_path(&vec![nv("path", text("/a")), nv("path", text("/b"))]), "/b");
    assert_eq!(extract_path(&vec![nv("path", ArgValue::Other)]), "/");
    assert_eq!(extract_path(&vec![nv("path", text("/a")), nv("path", ArgValue::Other)]), "/a");
    assert_eq!(extract_path(&vec![nv("method", text("/a"))]), "/");
}

#[test]
fn signature_puts_path_tuple_first() {
    let paths = vec![PathBinding { name: "id".to_string(), ty: "u8".to_string() }];
    let sig = build_signature(
        paths.clone(),
        vec![Extractor::Query, Extractor::Passthrough { index: 2 }],
        false,
    );
    assert_eq!(
        sig.args,
        vec![
            HandlerArg::PathTuple(paths),
            HandlerArg::Extract(Extractor::Query),
            HandlerArg::Extract(Extractor::Passthrough { index: 2 }),
        ]
    );
    assert!(sig.returns_any_response);
    let sig = build_signature(vec![], vec![Extractor::Query], true);
    assert_eq!(sig.args, vec![HandlerArg::Extract(Extractor::Query)]);
    assert!(!sig.returns_any_response);
}

#[test]
fn one_binding_per_method() {
    assert_eq!(
        build_router_expr(&strings(&["GET", "POST"]), "/a/{id}", "show"),
        vec![binding("/a/{id}", "GET", "show"), binding("/a/{id}", "POST", "show")]
    );
    assert_eq!(build_router_expr(&vec![], "/a", "show"), vec![]);
}

#[test]
fn shorthand_stands_for_route_arguments() {
    assert_eq!(make_wrapper("/a", "GET"), vec![nv("path", text("/a")), nv("method", text("GET"))]);
}

#[test]
fn route_of_a_handler() {
    let plan = make_route(
        &make_wrapper("/users/:id", "get"),
        &handler("show_user", vec![plain("id", "u64"), plain("db", "Database")]),
    )
    .unwrap();
    assert_eq!(plan.routes, vec![binding("/users/{id}", "GET", "show_user")]);
    assert_eq!(
        plan.signature.args,
        vec![HandlerArg::PathTuple(vec![PathBinding { name: "id".to_string(), ty: "u64".to_string() }])]
    );
    assert!(plan.signature.returns_any_response);
    assert_eq!(
        plan.injections,
        vec![Injection { name: "db".to_string(), lookup: Lookup::ByType("Database".to_string()) }]
    );
    assert_eq!(plan.query_struct, None);
}

#[test]
fn rejected_methods_come_before_rejected_parameters() {
    let bad = Param {
        attrs: vec![exum::param::ParamAttr { name: "q".to_string(), options: vec![] }],
        pattern: ParamPattern::Other,
        ty: "T".to_string(),
        shape: TypeShape::Other,
    };
    assert_eq!(
        make_route(&vec![nv("method", ArgValue::Other)], &handler("f", vec![bad.clone()])),
        Err(DeclError::MethodList)
    );
    assert_eq!(make_route(&vec![], &handler("f", vec![bad])), Err(DeclError::QueryPattern));
}

#[test]
fn prefix_is_joined_before_paths() {
    let mut args = vec![
        nv("method", text("get")),
        nv("path", text("list")),
        MetaArg::Other,
        nv("path", ArgValue::Other),
        nv("path", text("/x")),
    ];
    let before = copy_args(&args);
    assert_eq!(before, args);
    controller_update_attr(&mut args, "/redis");
    assert_eq!(
        args,
        vec![
            nv("method", text("get")),
            nv("path", text("/redis/list")),
            MetaArg::Other,
            nv("path", ArgValue::Other),
            nv("path", text("/redis/x")),
        ]
    );
}

#[test]
fn state_registration() {
    let plan = state(&StateArgs { prewarm: true }, "make_pool", &Some("Pool".to_string())).unwrap();
    assert_eq!(plan.output_ty, "Pool");
    assert!(plan.prewarm);
    assert_eq!(plan.init_fn_name, "__init_make_pool");
    assert_eq!(plan.def_fn_name, "__state_def_make_pool");
    assert_eq!(state(&StateArgs { prewarm: false }, "f", &None), Err(DeclError::StateReturn));
}

#[test]
fn service_registration() {
    let decl = ServiceDecl {
        type_ident: Some("SimpleRedisService".to_string()),
        trait_ident: Some("RedisService".to_string()),
        methods: vec![
            MethodSig { name: "set".to_string(), args: vec![MethodArg { ident: None, ty: "X".to_string() }] },
            MethodSig {
                name: "new".to_string(),
                args: vec![
                    MethodArg { ident: Some("pool".to_string()), ty: "Pool".to_string() },
                    MethodArg { ident: Some("clock".to_string()), ty: "Clock".to_string() },
                ],
            },
        ],
    };
    let plan = service(&StateArgs { prewarm: false }, &decl).unwrap();
    assert_eq!(plan.type_ident, "SimpleRedisService");
    assert!(!plan.prewarm);
    assert_eq!(plan.init_fn_name, "__init_SimpleRedisService");
    assert_eq!(plan.def_fn_name, "__state_def_SimpleRedisService");
    assert_eq!(plan.getter_fn_name, Some("__exum_TDI_get_RedisService".to_string()));
    assert_eq!(
        plan.dependencies,
        vec![
            Injection { name: "pool".to_string(), lookup: Lookup::ByType("Pool".to_string()) },
            Injection { name: "clock".to_string(), lookup: Lookup::ByType("Clock".to_string()) },
        ]
    );
}

#[test]
fn service_without_path_type_or_trait() {
    let decl = ServiceDecl { type_ident: None, trait_ident: None, methods: vec![] };
    let plan = service(&StateArgs { prewarm: true }, &decl).unwrap();
    assert_eq!(plan.type_ident, "UnknowType");
    assert_eq!(plan.init_fn_name, "__init_UnknowType");
    assert_eq!(plan.getter_fn_name, None);
    assert!(plan.dependencies.is_empty());
    let bad = ServiceDecl {
        type_ident: None,
        trait_ident: None,
        methods: vec![MethodSig {
            name: "new".to_string(),
            args: vec![MethodArg { ident: None, ty: "X".to_string() }],
        }],
    };
    assert_eq!(service(&StateArgs { prewarm: true }, &bad), Err(DeclError::ServiceArgument));
}

fn shorthand(name: &str, path: &str) -> MethodAttr {
    MethodAttr { name: Some(name.to_string()), literal: Some(path.to_string()), args: vec![] }
}

#[test]
fn controller_routes_carry_the_prefix() {
    let decl = ControllerDecl {
        type_ident: Some("SimpleRedisController".to_string()),
        methods: vec![
            ControllerMethod { attrs: vec![shorthand("get", "/list")], decl: handler("list", vec![]) },
            ControllerMethod {
                attrs: vec![MethodAttr { name: Some("doc".to_string()), literal: None, args: vec![] }],
                decl: handler("helper", vec![]),
            },
            ControllerMethod {
                attrs: vec![MethodAttr {
                    name: Some("route".to_string()),
                    literal: None,
                    args: vec![nv("path", text("set/:key")), nv("method", text("post,put"))],
                }],
                decl: handler("set", vec![plain("key", "String")]),
            },
            ControllerMethod { attrs: vec![shorthand("get", "/")], decl: handler("index", vec![]) },
        ],
    };
    let plan = controller("/redis", &decl).unwrap();
    assert_eq!(plan.module_name, "__exum_generated_SimpleRedisController");
    assert_eq!(plan.items.len(), 4);
    assert_eq!(plan.items[1], ControllerItem::Plain);
    assert_eq!(
        collect_routes(&plan),
        vec![
            binding("/redis/list", "GET", "list"),
            binding("/redis/set/{key}", "POST", "set"),
            binding("/redis/set/{key}", "PUT", "set"),
            binding("/redis", "GET", "index"),
        ]
    );
}

#[test]
fn controller_errors_and_defaults() {
    let decl = ControllerDecl {
        type_ident: None,
        methods: vec![ControllerMethod {
            attrs: vec![MethodAttr { name: Some("get".to_string()), literal: None, args: vec![] }],
            decl: handler("f", vec![]),
        }],
    };
    assert_eq!(controller("", &decl), Err(DeclError::RoutePath));
    let empty = ControllerDecl { type_ident: None, methods: vec![] };
    let plan = controller("", &empty).unwrap();
    assert_eq!(plan.module_name, "__exum_generated_UnknownController");
    assert!(plan.items.is_empty());
}

#[test]
fn routes_are_applied_before_controllers() {
    let routes = vec![vec![binding("/a", "GET", "a")], vec![], vec![binding("/b", "GET", "b1"), binding("/b", "POST", "b2")]];
    let controllers = vec![vec![binding("/c/x", "GET", "cx")], vec![binding("/a", "GET", "late")]];
    let table = collect_router(&routes, &controllers);
    assert_eq!(
        table,
        vec![
            binding("/a", "GET", "a"),
            binding("/b", "GET", "b1"),
            binding("/b", "POST", "b2"),
            binding("/c/x", "GET", "cx"),
            binding("/a", "GET", "late"),
        ]
    );
    assert_eq!(resolve(&table, "/a", "GET"), Some(&"late".to_string()));
    assert_eq!(resolve(&table, "/b", "POST"), Some(&"b2".to_string()));
    assert_eq!(resolve(&table, "/b", "PUT"), None);
    assert_eq!(resolve(&vec![], "/b", "PUT"), None);
}
