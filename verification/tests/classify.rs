use exum::classify::{
    classify_inputs, extract_inner_option, handle_b_attr, handle_dep_attr, handle_q_attr,
    handle_trait_dep_attr, is_native_type, process_inputs, select_body_mode,
};
use exum::param::{ElementType, Param, ParamAttr, ParamPattern, PathType, TypeShape};
use exum::plan::{
    BodyType, DeclError, Extractor, HandlerPlan, Injection, Lookup, PathBinding, QueryField,
    QueryStruct,
};

fn attr(name: &str, options: &[&str]) -> ParamAttr {
    ParamAttr { name: name.to_string(), options: options.iter().map(|s| s.to_string()).collect() }
}

fn path_type(last: &str, first: Option<&str>) -> PathType {
    PathType { last_segment: last.to_string(), first_argument: first.map(|s| s.to_string()) }
}

fn plain(name: &str, ty: &str) -> Param {
    Param {
        attrs: vec![],
        pattern: ParamPattern::Ident(name.to_string()),
        ty: ty.to_string(),
        shape: TypeShape::Path(path_type(ty, None)),
    }
}

fn optional(name: &str, inner: &str) -> Param {
    Param {
        attrs: vec![],
        pattern: ParamPattern::Ident(name.to_string()),
        ty: format!("Option<{}>", inner),
        shape: TypeShape::Path(path_type("Option", Some(inner))),
    }
}

fn marked(mut p: Param, a: ParamAttr) -> Param {
    p.attrs.push(a);
    p
}

fn element(text: &str, path: Option<PathType>) -> ElementType {
    ElementType { text: text.to_string(), path }
}

fn field(name: &str, ty: &str, optional: bool) -> QueryField {
    QueryField { name: name.to_string(), ty: ty.to_string(), optional }
}

#[test]
fn query_scalar_and_tuple_make_one_structure() {
    let scalar = marked(plain("page", "u32"), attr("q", &[]));
    let tuple = Param {
        attrs: vec![attr("q", &[])],
        pattern: ParamPattern::Tuple(vec![Some("a".to_string()), Some("b".to_string())]),
        ty: "(String, Option<i32>)".to_string(),
        shape: TypeShape::Tuple(vec![
            element("String", Some(path_type("String", None))),
            element("Option<i32>", Some(path_type("Option", Some("i32")))),
        ]),
    };
    let plan = process_inputs(&vec![scalar, tuple], "/items", "list_items").unwrap();
    assert_eq!(
        plan,
        HandlerPlan {
            path_args: vec![],
            extractors: vec![Extractor::Query],
            query_struct: Some(QueryStruct {
                name: "ListItemsQuery".to_string(),
                fields: vec![
                    field("page", "u32", false),
                    field("a", "String", false),
                    field("b", "i32", true),
                ],
            }),
            injections: vec![],
        }
    );
}

#[test]
fn every_class_in_one_handler() {
    let inputs = vec![
        plain("id", "u64"),
        marked(optional("limit", "u8"), attr("q", &[])),
        marked(plain("payload", "NewItem"), attr("b", &["form"])),
        plain("headers", "HeaderMap"),
        plain("store", "ItemStore"),
        Param {
            attrs: vec![],
            pattern: ParamPattern::Ident("clock".to_string()),
            ty: "dyn Clock".to_string(),
            shape: TypeShape::TraitObject(Some("Clock".to_string())),
        },
        Param {
            attrs: vec![],
            pattern: ParamPattern::Other,
            ty: "Json<Extra>".to_string(),
            shape: TypeShape::Path(path_type("Json", Some("Extra"))),
        },
    ];
    let names = vec!["id".to_string()];
    let plan = classify_inputs(&inputs, &names, "ShowQuery".to_string()).unwrap();
    assert_eq!(plan.path_args, vec![PathBinding { name: "id".to_string(), ty: "u64".to_string() }]);
    assert_eq!(
        plan.extractors,
        vec![
            Extractor::Query,
            Extractor::Body {
                mode: BodyType::Form,
                name: "payload".to_string(),
                ty: "NewItem".to_string(),
                optional: false,
            },
            Extractor::Passthrough { index: 3 },
            Extractor::Passthrough { index: 6 },
        ]
    );
    assert_eq!(
        plan.query_struct,
        Some(QueryStruct { name: "ShowQuery".to_string(), fields: vec![field("limit", "u8", true)] })
    );
    assert_eq!(
        plan.injections,
        vec![
            Injection { name: "store".to_string(), lookup: Lookup::ByType("ItemStore".to_string()) },
            Injection { name: "clock".to_string(), lookup: Lookup::ByTrait("Clock".to_string()) },
        ]
    );
}

#[test]
fn handler_without_parameters() {
    let plan = process_inputs(&vec![], "/", "index").unwrap();
    assert_eq!(
        plan,
        HandlerPlan { path_args: vec![], extractors: vec![], query_struct: None, injections: vec![] }
    );
}

#[test]
fn path_parameters_keep_declaration_order() {
    let plan =
        process_inputs(&vec![plain("b", "u8"), plain("a", "u16")], "/x/{a}/{b}", "f").unwrap();
    assert_eq!(
        plan.path_args,
        vec![
            PathBinding { name: "b".to_string(), ty: "u8".to_string() },
            PathBinding { name: "a".to_string(), ty: "u16".to_string() },
        ]
    );
}

#[test]
fn marker_wins_over_path_name() {
    let plan =
        process_inputs(&vec![marked(plain("id", "u8"), attr("q", &[]))], "/x/{id}", "f").unwrap();
    assert!(plan.path_args.is_empty());
    assert_eq!(plan.query_struct.unwrap().fields, vec![field("id", "u8", false)]);
}

#[test]
fn native_types_pass_through() {
    for name in [
        "Method", "Uri", "Version", "HeaderMap", "String", "Bytes", "Body", "OriginalUri",
        "MatchedPath", "RawQuery", "Value",
    ] {
        assert!(is_native_type(name));
    }
    assert!(!is_native_type("string"));
    assert!(!is_native_type("Json"));
    assert!(!is_native_type(""));
}

#[test]
fn non_path_type_is_injected_by_type() {
    let p = Param {
        attrs: vec![],
        pattern: ParamPattern::Ident("pair".to_string()),
        ty: "(A, B)".to_string(),
        shape: TypeShape::Other,
    };
    let plan = process_inputs(&vec![p], "/", "f").unwrap();
    assert_eq!(
        plan.injections,
        vec![Injection { name: "pair".to_string(), lookup: Lookup::ByType("(A, B)".to_string()) }]
    );
}

#[test]
fn trait_object_without_trait_bound_is_rejected() {
    let p = Param {
        attrs: vec![],
        pattern: ParamPattern::Ident("x".to_string()),
        ty: "dyn 'static".to_string(),
        shape: TypeShape::TraitObject(None),
    };
    assert_eq!(process_inputs(&vec![p.clone()], "/", "f"), Err(DeclError::DependencyTrait));
    let mut tuple = p;
    tuple.pattern = ParamPattern::Other;
    assert_eq!(process_inputs(&vec![tuple], "/", "f"), Err(DeclError::DependencyTrait));
}

#[test]
fn markers_and_path_names_decide_before_the_type() {
    let object = |attrs: Vec<ParamAttr>| Param {
        attrs,
        pattern: ParamPattern::Ident("clock".to_string()),
        ty: "dyn Clock".to_string(),
        shape: TypeShape::TraitObject(Some("Clock".to_string())),
    };
    let plan = process_inputs(&vec![object(vec![attr("q", &[])])], "/", "f").unwrap();
    assert_eq!(plan.query_struct.unwrap().fields, vec![field("clock", "dyn Clock", false)]);
    assert!(plan.injections.is_empty());
    let plan = process_inputs(&vec![object(vec![attr("b", &["form"])])], "/", "f").unwrap();
    assert_eq!(
        plan.extractors,
        vec![Extractor::Body {
            mode: BodyType::Form,
            name: "clock".to_string(),
            ty: "dyn Clock".to_string(),
            optional: false,
        }]
    );
    let plan = process_inputs(&vec![object(vec![])], "/at/{clock}", "f").unwrap();
    assert_eq!(
        plan.path_args,
        vec![PathBinding { name: "clock".to_string(), ty: "dyn Clock".to_string() }]
    );
    let plan = process_inputs(&vec![object(vec![])], "/", "f").unwrap();
    assert_eq!(
        plan.injections,
        vec![Injection { name: "clock".to_string(), lookup: Lookup::ByTrait("Clock".to_string()) }]
    );
    let mut unnamed = object(vec![]);
    unnamed.pattern = ParamPattern::Other;
    assert_eq!(process_inputs(&vec![unnamed], "/", "f"), Err(DeclError::DependencyPattern));
    let plan = process_inputs(&vec![plain("String", "String")], "/{String}", "f").unwrap();
    assert_eq!(plan.path_args.len(), 1);
    assert!(plan.extractors.is_empty());
}

#[test]
fn query_marked_empty_tuple_still_makes_the_structure() {
    let unit = Param {
        attrs: vec![attr("q", &[])],
        pattern: ParamPattern::Tuple(vec![]),
        ty: "()".to_string(),
        shape: TypeShape::Tuple(vec![]),
    };
    let plan = process_inputs(&vec![unit], "/", "ping").unwrap();
    assert_eq!(plan.extractors, vec![Extractor::Query]);
    assert_eq!(plan.query_struct, Some(QueryStruct { name: "PingQuery".to_string(), fields: vec![] }));
}

#[test]
fn every_parameter_is_counted() {
    let inputs = vec![
        plain("id", "u64"),
        plain("headers", "HeaderMap"),
        plain("store", "ItemStore"),
        marked(plain("page", "u32"), attr("q", &[])),
        marked(plain("data", "Item"), attr("b", &[])),
    ];
    let plan = process_inputs(&inputs, "/{id}", "f").unwrap();
    let fields = plan.query_struct.as_ref().unwrap().fields.len();
    let plain_extractors = plan.extractors.len() - 1;
    assert_eq!(plan.path_args.len() + plan.injections.len() + plain_extractors + fields, inputs.len());
}

#[test]
fn body_modes() {
    assert_eq!(select_body_mode(&vec![attr("b", &[])]), Ok(BodyType::Json));
    assert_eq!(select_body_mode(&vec![attr("b", &["json"])]), Ok(BodyType::Json));
    assert_eq!(select_body_mode(&vec![attr("b", &["form"])]), Ok(BodyType::Form));
    assert_eq!(select_body_mode(&vec![attr("b", &["multipart"])]), Ok(BodyType::Multipart));
    assert_eq!(select_body_mode(&vec![attr("b", &["form", "json"])]), Ok(BodyType::Json));
    assert_eq!(
        select_body_mode(&vec![attr("b", &["json"]), attr("x", &["zzz"]), attr("b", &["multipart"])]),
        Ok(BodyType::Multipart)
    );
    assert_eq!(select_body_mode(&vec![attr("b", &["xml"])]), Err(DeclError::BodyOption));
    assert_eq!(select_body_mode(&vec![attr("b", &["xml", "json"])]), Err(DeclError::BodyOption));
}

#[test]
fn optional_body() {
    let mut out = vec![];
    let p = marked(optional("data", "Form1"), attr("b", &[]));
    assert_eq!(handle_b_attr(&p, &mut out), Ok(()));
    assert_eq!(
        out,
        vec![Extractor::Body {
            mode: BodyType::Json,
            name: "data".to_string(),
            ty: "Form1".to_string(),
            optional: true,
        }]
    );
}

#[test]
fn extract_inner_option_cases() {
    assert_eq!(extract_inner_option(&Some(path_type("Option", Some("u8")))), Some("u8".to_string()));
    assert_eq!(extract_inner_option(&Some(path_type("Option", None))), None);
    assert_eq!(extract_inner_option(&Some(path_type("Vec", Some("u8")))), None);
    assert_eq!(extract_inner_option(&None), None);
}

#[test]
fn rejected_declarations() {
    let other = |a: ParamAttr| Param {
        attrs: vec![a],
        pattern: ParamPattern::Other,
        ty: "T".to_string(),
        shape: TypeShape::Path(path_type("T", None)),
    };
    let mut q = vec![field("kept", "u8", false)];
    assert_eq!(handle_q_attr(&other(attr("q", &[])), &mut q), Err(DeclError::QueryPattern));
    let tuple = |parts: Vec<Option<String>>, shape: TypeShape| Param {
        attrs: vec![attr("q", &[])],
        pattern: ParamPattern::Tuple(parts),
        ty: "(..)".to_string(),
        shape,
    };
    assert_eq!(
        handle_q_attr(
            &tuple(vec![Some("a".to_string())], TypeShape::Path(path_type("T", None))),
            &mut q
        ),
        Err(DeclError::QueryTupleType)
    );
    assert_eq!(
        handle_q_attr(
            &tuple(
                vec![Some("a".to_string()), None],
                TypeShape::Tuple(vec![element("u8", None), element("u8", None)])
            ),
            &mut q
        ),
        Err(DeclError::QueryTupleElement)
    );
    assert_eq!(
        handle_q_attr(
            &tuple(
                vec![Some("a".to_string()), Some("b".to_string())],
                TypeShape::Tuple(vec![element("u8", None)])
            ),
            &mut q
        ),
        Err(DeclError::QueryTupleShape)
    );
    assert_eq!(q, vec![field("kept", "u8", false)]);
    let mut x = vec![];
    assert_eq!(handle_b_attr(&other(attr("b", &[])), &mut x), Err(DeclError::BodyPattern));
    assert_eq!(handle_b_attr(&other(attr("b", &["yaml"])), &mut x), Err(DeclError::BodyOption));
    assert!(x.is_empty());
    let mut deps = vec![];
    assert_eq!(handle_dep_attr(&other(attr("z", &[])), &mut deps), Err(DeclError::DependencyPattern));
    assert_eq!(
        handle_trait_dep_attr(&other(attr("z", &[])), "Clock", &mut deps),
        Err(DeclError::DependencyPattern)
    );
    assert!(deps.is_empty());
}

#[test]
fn first_rejected_parameter_is_reported() {
    let bad_body = Param {
        attrs: vec![attr("b", &[])],
        pattern: ParamPattern::Other,
        ty: "T".to_string(),
        shape: TypeShape::Other,
    };
    let bad_query = Param {
        attrs: vec![attr("q", &[])],
        pattern: ParamPattern::Other,
        ty: "T".to_string(),
        shape: TypeShape::Other,
    };
    assert_eq!(
        process_inputs(&vec![plain("a", "A"), bad_body.clone(), bad_query.clone()], "/", "f"),
        Err(DeclError::BodyPattern)
    );
    assert_eq!(
        process_inputs(&vec![bad_query, bad_body], "/", "f"),
        Err(DeclError::QueryPattern)
    );
}
