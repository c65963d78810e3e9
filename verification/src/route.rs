//! Route declarations: the arguments of a route attribute, the path and the
//! methods they give, and the route that a handler declaration becomes.

use crate::classify::{classified, process_inputs, query_struct_name};
use crate::param::{Param, ParamView};
use crate::path::{join_path, joined, normalize_path, normalized, params};
use crate::plan::{
    DeclError, Extractor, ExtractorView, HandlerPlan, HandlerPlanView, Injection, InjectionView,
    PathBinding, PathBindingView, QueryStruct, QueryStructView,
};
use crate::text::{split, split_str, str_eq};
use vstd::prelude::*;
use vstd::string::*;

verus! {

/// What an attribute's name stands for inside a controller block.
#[derive(Debug, Clone, PartialEq, Eq)]
pub enum RouteAttrType {
    /// The general `route` attribute.
    Route,
    /// A method shorthand such as `get`; holds the attribute's name.
    Derive(String),
    /// Any other attribute.
    Not,
}

pub enum RouteAttrTypeView {
    Route,
    Derive(Seq<char>),
    Not,
}

impl DeepView for RouteAttrType {
    type V = RouteAttrTypeView;

    open spec fn deep_view(&self) -> RouteAttrTypeView {
        match self {
            RouteAttrType::Route => RouteAttrTypeView::Route,
            RouteAttrType::Derive(name) => RouteAttrTypeView::Derive(name@),
            RouteAttrType::Not => RouteAttrTypeView::Not,
        }
    }
}

/// Whether a name is one of the method shorthands.
pub open spec fn is_method_shorthand(name: Seq<char>) -> bool {
    ||| name == "get"@
    ||| name == "post"@
    ||| name == "put"@
    ||| name == "delete"@
    ||| name == "patch"@
    ||| name == "head"@
    ||| name == "options"@
    ||| name == "trace"@
}

/// What an attribute's name stands for.
pub open spec fn route_attr_type(name: Seq<char>) -> RouteAttrTypeView {
    if name == "route"@ {
        RouteAttrTypeView::Route
    } else if is_method_shorthand(name) {
        RouteAttrTypeView::Derive(name)
    } else {
        RouteAttrTypeView::Not
    }
}

/// Tells a route attribute from a method shorthand and from other attributes.
pub fn valid_route_macro(name: &str) -> (kind: RouteAttrType)
    ensures
        kind.deep_view() == route_attr_type(name@),
{
    if str_eq(name, "route") {
        RouteAttrType::Route
    } else if str_eq(name, "get") || str_eq(name, "post") || str_eq(name, "put") || str_eq(
        name,
        "delete",
    ) || str_eq(name, "patch") || str_eq(name, "head") || str_eq(name, "options") || str_eq(
        name,
        "trace",
    ) {
        RouteAttrType::Derive(name.to_owned())
    } else {
        RouteAttrType::Not
    }
}

/// The value of an argument of a route attribute.
#[derive(Debug, Clone, PartialEq, Eq)]
pub enum ArgValue {
    /// A string literal.
    Str(String),
    /// An array; each element is its string, or `None` if it is no string
    /// literal.
    Array(Vec<Option<String>>),
    /// Any other expression.
    Other,
}

pub enum ArgValueView {
    Str(Seq<char>),
    Array(Seq<Option<Seq<char>>>),
    Other,
}

impl DeepView for ArgValue {
    type V = ArgValueView;

    open spec fn deep_view(&self) -> ArgValueView {
        match self {
            ArgValue::Str(s) => ArgValueView::Str(s@),
            ArgValue::Array(elems) => ArgValueView::Array(elems.deep_view()),
            ArgValue::Other => ArgValueView::Other,
        }
    }
}

/// One argument of a route attribute.
#[derive(Debug, Clone, PartialEq, Eq)]
pub enum MetaArg {
    /// `name = value`.
    NameValue { name: String, value: ArgValue },
    /// Any other form.
    Other,
}

pub enum MetaArgView {
    NameValue { name: Seq<char>, value: ArgValueView },
    Other,
}

impl DeepView for MetaArg {
    type V = MetaArgView;

    open spec fn deep_view(&self) -> MetaArgView {
        match self {
            MetaArg::NameValue { name, value } => MetaArgView::NameValue {
                name: name@,
                value: value.deep_view(),
            },
            MetaArg::Other => MetaArgView::Other,
        }
    }
}

/// What `str::to_uppercase` makes of a text.
pub uninterp spec fn uppercase(text: Seq<char>) -> Seq<char>;

/// Calls `str::to_uppercase`. The result is only named: it depends on the
/// text alone.
#[verifier::external_body]
pub(crate) fn to_upper(text: &str) -> (upper: String)
    ensures
        upper@ == uppercase(text@),
{
    text.to_uppercase()
}

/// Each text in upper case.
pub open spec fn uppercase_all(texts: Seq<Seq<char>>) -> Seq<Seq<char>> {
    Seq::new(texts.len(), |i: int| uppercase(texts[i]))
}

/// The strings of an array, where all its elements are strings.
pub open spec fn strings_of(elems: Seq<Option<Seq<char>>>) -> Seq<Seq<char>> {
    Seq::new(elems.len(), |i: int| elems[i]->0)
}

/// The methods that a value names: the pieces of a string between commas, or
/// the elements of an array of strings, in upper case.
pub open spec fn methods_of(value: ArgValueView) -> Result<Seq<Seq<char>>, DeclError> {
    match value {
        ArgValueView::Str(s) => Ok(uppercase_all(split(s, ','))),
        ArgValueView::Array(elems) => if exists|i: int|
            0 <= i < elems.len() && (#[trigger] elems[i]) is None {
            Err(DeclError::MethodElement)
        } else {
            Ok(uppercase_all(strings_of(elems)))
        },
        ArgValueView::Other => Err(DeclError::MethodList),
    }
}

/// Puts every text in upper case.
pub fn to_upper_all(texts: &Vec<String>) -> (upper: Vec<String>)
    ensures
        upper.deep_view() == uppercase_all(texts.deep_view()),
{
    let mut upper: Vec<String> = Vec::new();
    let mut i: usize = 0;
    while i < texts.len()
        invariant
            i <= texts.len(),
            upper.len() == i,
            forall|j: int| 0 <= j < i ==> #[trigger] upper.deep_view()[j] == uppercase(
                texts.deep_view()[j],
            ),
        decreases texts.len() - i,
    {
        let ghost before = upper.deep_view();
        let u = to_upper(texts[i].as_str());
        upper.push(u);
        proof {
            assert(upper.deep_view() =~= before.push(u@));
        }
        i += 1;
    }
    proof {
        assert(upper.deep_view() =~= uppercase_all(texts.deep_view()));
    }
    upper
}

/// The methods that the value of a `method` argument names.
pub fn collect_methods(expr: &ArgValue) -> (res: Result<Vec<String>, DeclError>)
    ensures
        match methods_of(expr.deep_view()) {
            Ok(methods) => res is Ok && res->Ok_0.deep_view() == methods,
            Err(e) => res is Err && res->Err_0 == e,
        },
{
    match expr {
        ArgValue::Str(s) => {
            let parts = split_str(s.as_str(), ',');
            Ok(to_upper_all(&parts))
        },
        ArgValue::Array(elems) => {
            let mut methods: Vec<String> = Vec::new();
            let mut i: usize = 0;
            while i < elems.len()
                invariant
                    i <= elems.len(),
                    expr.deep_view() == ArgValueView::Array(elems.deep_view()),
                    methods.len() == i,
                    forall|j: int| 0 <= j < i ==> (#[trigger] elems.deep_view()[j]) is Some,
                    forall|j: int|
                        0 <= j < i ==> #[trigger] methods.deep_view()[j] == uppercase(
                            elems.deep_view()[j]->0,
                        ),
                decreases elems.len() - i,
            {
                match &elems[i] {
                    Some(s) => {
                        let ghost before = methods.deep_view();
                        let u = to_upper(s.as_str());
                        methods.push(u);
                        proof {
                            assert(methods.deep_view() =~= before.push(u@));
                        }
                    },
                    None => {
                        proof {
                            assert(elems.deep_view()[i as int] is None);
                        }
                        return Err(DeclError::MethodElement);
                    },
                }
                i += 1;
            }
            proof {
                assert(methods.deep_view() =~= uppercase_all(strings_of(elems.deep_view())));
            }
            Ok(methods)
        },
        ArgValue::Other => Err(DeclError::MethodList),
    }
}

/// The raw path that the arguments give: the string of the last `path`
/// argument whose value is a string, or `/` without one.
pub open spec fn raw_path(args: Seq<MetaArgView>) -> Seq<char>
    decreases args.len(),
{
    if args.len() == 0 {
        seq!['/']
    } else {
        match args.last() {
            MetaArgView::NameValue { name, value: ArgValueView::Str(s) } => if name == "path"@ {
                s
            } else {
                raw_path(args.drop_last())
            },
            _ => raw_path(args.drop_last()),
        }
    }
}

/// The canonical pattern of the path that the arguments give.
pub fn extract_path(args: &Vec<MetaArg>) -> (pattern: String)
    ensures
        pattern@ == normalized(raw_path(args.deep_view())),
{
    let mut found: Option<&String> = None;
    let mut i: usize = 0;
    proof {
        reveal_strlit("/");
    }
    while i < args.len()
        invariant
            i <= args.len(),
            match found {
                Some(s) => s@ == raw_path(args.deep_view().take(i as int)),
                None => raw_path(args.deep_view().take(i as int)) == seq!['/'],
            },
        decreases args.len() - i,
    {
        proof {
            let next = args.deep_view().take(i + 1);
            assert(next.drop_last() =~= args.deep_view().take(i as int));
            assert(next.last() == args.deep_view()[i as int]);
        }
        match &args[i] {
            MetaArg::NameValue { name, value } => {
                if str_eq(name.as_str(), "path") {
                    match value {
                        ArgValue::Str(s) => {
                            found = Some(s);
                        },
                        _ => {},
                    }
                }
            },
            MetaArg::Other => {},
        }
        i += 1;
    }
    proof {
        assert(args.deep_view().take(i as int) =~= args.deep_view());
        assert("/"@ =~= seq!['/']);
    }
    match found {
        Some(s) => normalize_path(s.as_str()),
        None => normalize_path("/"),
    }
}

/// The methods that the `method` arguments name, in order, or the error of
/// the first one that is rejected.
pub open spec fn declared_methods(args: Seq<MetaArgView>) -> Result<Seq<Seq<char>>, DeclError>
    decreases args.len(),
{
    if args.len() == 0 {
        Ok(Seq::empty())
    } else {
        match declared_methods(args.drop_last()) {
            Err(e) => Err(e),
            Ok(before) => match args.last() {
                MetaArgView::NameValue { name, value } => if name == "method"@ {
                    match methods_of(value) {
                        Ok(methods) => Ok(before + methods),
                        Err(e) => Err(e),
                    }
                } else {
                    Ok(before)
                },
                MetaArgView::Other => Ok(before),
            },
        }
    }
}

/// The methods of a route: those that its arguments name, or `POST` where
/// they name none.
pub open spec fn route_methods(args: Seq<MetaArgView>) -> Result<Seq<Seq<char>>, DeclError> {
    match declared_methods(args) {
        Ok(methods) => if methods.len() == 0 {
            Ok(seq!["POST"@])
        } else {
            Ok(methods)
        },
        Err(e) => Err(e),
    }
}

/// An error among the first arguments is the error of the whole list.
pub proof fn lemma_declared_methods_error_stays(args: Seq<MetaArgView>, n: int)
    requires
        0 <= n <= args.len(),
        declared_methods(args.take(n)) is Err,
    ensures
        declared_methods(args) == declared_methods(args.take(n)),
    decreases args.len() - n,
{
    if n == args.len() {
        assert(args.take(n) =~= args);
    } else {
        assert(args.drop_last().take(n) =~= args.take(n));
        lemma_declared_methods_error_stays(args.drop_last(), n);
    }
}

/// The methods of a route.
pub fn extract_methods(args: &Vec<MetaArg>) -> (res: Result<Vec<String>, DeclError>)
    ensures
        match route_methods(args.deep_view()) {
            Ok(methods) => res is Ok && res->Ok_0.deep_view() == methods,
            Err(e) => res is Err && res->Err_0 == e,
        },
{
    let mut methods: Vec<String> = Vec::new();
    let mut i: usize = 0;
    proof {
        assert(methods.deep_view() =~= Seq::<Seq<char>>::empty());
    }
    while i < args.len()
        invariant
            i <= args.len(),
            declared_methods(args.deep_view().take(i as int)) == Ok::<Seq<Seq<char>>, DeclError>(
                methods.deep_view(),
            ),
        decreases args.len() - i,
    {
        proof {
            let next = args.deep_view().take(i + 1);
            assert(next.drop_last() =~= args.deep_view().take(i as int));
            assert(next.last() == args.deep_view()[i as int]);
        }
        match &args[i] {
            MetaArg::NameValue { name, value } => {
                if str_eq(name.as_str(), "method") {
                    match collect_methods(value) {
                        Ok(mut more) => {
                            let ghost before = methods.deep_view();
                            let ghost added = more.deep_view();
                            methods.append(&mut more);
                            proof {
                                assert(methods.deep_view() =~= before + added);
                            }
                        },
                        Err(e) => {
                            proof {
                                lemma_declared_methods_error_stays(args.deep_view(), i + 1);
                            }
                            return Err(e);
                        },
                    }
                }
            },
            MetaArg::Other => {},
        }
        i += 1;
    }
    proof {
        assert(args.deep_view().take(i as int) =~= args.deep_view());
    }
    if methods.len() == 0 {
        let post = "POST".to_owned();
        methods.push(post);
        proof {
            assert(methods.deep_view() =~= seq!["POST"@]);
        }
    }
    Ok(methods)
}

/// One argument of the rewritten handler.
#[derive(Debug, Clone, PartialEq, Eq)]
pub enum HandlerArg {
    /// The tuple of the parameters bound from the path.
    PathTuple(Vec<PathBinding>),
    /// An extractor.
    Extract(Extractor),
}

pub enum HandlerArgView {
    PathTuple(Seq<PathBindingView>),
    Extract(ExtractorView),
}

impl DeepView for HandlerArg {
    type V = HandlerArgView;

    open spec fn deep_view(&self) -> HandlerArgView {
        match self {
            HandlerArg::PathTuple(bindings) => HandlerArgView::PathTuple(bindings.deep_view()),
            HandlerArg::Extract(x) => HandlerArgView::Extract(x.deep_view()),
        }
    }
}

/// The signature of the rewritten handler.
#[derive(Debug, Clone, PartialEq, Eq)]
pub struct SignaturePlan {
    /// Its arguments, in order.
    pub args: Vec<HandlerArg>,
    /// Whether the handler declared no return type, so that the rewritten
    /// one returns a response of any kind.
    pub returns_any_response: bool,
}

pub struct SignaturePlanView {
    pub args: Seq<HandlerArgView>,
    pub returns_any_response: bool,
}

impl DeepView for SignaturePlan {
    type V = SignaturePlanView;

    open spec fn deep_view(&self) -> SignaturePlanView {
        SignaturePlanView {
            args: self.args.deep_view(),
            returns_any_response: self.returns_any_response,
        }
    }
}

/// The arguments of the rewritten handler: the path tuple first, if any
/// parameter is bound from the path, then the extractors in order.
pub open spec fn signature_args(
    path_args: Seq<PathBindingView>,
    extractors: Seq<ExtractorView>,
) -> Seq<HandlerArgView> {
    let rest = Seq::new(extractors.len(), |i: int| HandlerArgView::Extract(extractors[i]));
    if path_args.len() > 0 {
        seq![HandlerArgView::PathTuple(path_args)] + rest
    } else {
        rest
    }
}

/// The signature of the rewritten handler.
pub fn build_signature(
    path_args: Vec<PathBinding>,
    other_inputs: Vec<Extractor>,
    has_return_type: bool,
) -> (sig: SignaturePlan)
    ensures
        sig.deep_view().args == signature_args(path_args.deep_view(), other_inputs.deep_view()),
        sig.returns_any_response == !has_return_type,
{
    let ghost paths = path_args.deep_view();
    let ghost extractors = other_inputs.deep_view();
    let ghost rest = Seq::new(extractors.len(), |i: int| HandlerArgView::Extract(extractors[i]));
    let mut args: Vec<HandlerArg> = Vec::new();
    let has_path = path_args.len() > 0;
    if has_path {
        args.push(HandlerArg::PathTuple(path_args));
    }
    let ghost head = args.deep_view();
    proof {
        if has_path {
            assert(head =~= seq![HandlerArgView::PathTuple(paths)]);
        } else {
            assert(head =~= Seq::<HandlerArgView>::empty());
        }
    }
    let mut others = other_inputs;
    let mut k: usize = 0;
    let n = others.len();
    while others.len() > 0
        invariant
            k + others.len() == n,
            n == extractors.len(),
            others.deep_view() == extractors.skip(k as int),
            args.deep_view() == head + rest.take(k as int),
            rest == Seq::new(extractors.len(), |i: int| HandlerArgView::Extract(extractors[i])),
        decreases others.len(),
    {
        let ghost so_far = args.deep_view();
        let ghost left = others.deep_view();
        let ghost raw = others@;
        let x = others.remove(0);
        proof {
            assert(x.deep_view() == left[0]);
            assert forall|j: int| 0 <= j < others.len() implies others.deep_view()[j]
                == extractors.skip(k + 1)[j] by {
                assert(others@[j] == raw[j + 1]);
                assert(left[j + 1] == raw[j + 1].deep_view());
            }
            assert(others.deep_view() =~= extractors.skip(k + 1));
        }
        args.push(HandlerArg::Extract(x));
        proof {
            assert(args.deep_view() =~= so_far.push(HandlerArgView::Extract(x.deep_view())));
            assert(rest.take(k + 1) =~= rest.take(k as int).push(rest[k as int]));
            assert(args.deep_view() =~= head + rest.take(k + 1));
        }
        k += 1;
    }
    proof {
        assert(rest.take(k as int) =~= rest);
        if !has_path {
            assert(head + rest =~= rest);
        }
    }
    SignaturePlan { args, returns_any_response: !has_return_type }
}

/// One binding of a handler to a path and a method.
#[derive(Debug, Clone, PartialEq, Eq)]
pub struct RouteBinding {
    pub path: String,
    pub method: String,
    pub handler: String,
}

pub struct RouteBindingView {
    pub path: Seq<char>,
    pub method: Seq<char>,
    pub handler: Seq<char>,
}

impl DeepView for RouteBinding {
    type V = RouteBindingView;

    open spec fn deep_view(&self) -> RouteBindingView {
        RouteBindingView { path: self.path@, method: self.method@, handler: self.handler@ }
    }
}

/// The bindings of one handler: one for each method, in order, all on the
/// same path.
pub open spec fn bindings_of(
    methods: Seq<Seq<char>>,
    path: Seq<char>,
    handler: Seq<char>,
) -> Seq<RouteBindingView> {
    Seq::new(methods.len(), |i: int| RouteBindingView { path, method: methods[i], handler })
}

/// The bindings that add a handler to a router.
pub fn build_router_expr(methods: &Vec<String>, path: &str, fn_name: &str) -> (routes: Vec<
    RouteBinding,
>)
    ensures
        routes.deep_view() == bindings_of(methods.deep_view(), path@, fn_name@),
{
    let mut routes: Vec<RouteBinding> = Vec::new();
    let mut i: usize = 0;
    while i < methods.len()
        invariant
            i <= methods.len(),
            routes.deep_view() == bindings_of(methods.deep_view(), path@, fn_name@).take(i as int),
        decreases methods.len() - i,
    {
        let ghost before = routes.deep_view();
        let b = RouteBinding {
            path: path.to_owned(),
            method: methods[i].clone(),
            handler: fn_name.to_owned(),
        };
        routes.push(b);
        proof {
            let all = bindings_of(methods.deep_view(), path@, fn_name@);
            assert(routes.deep_view() =~= before.push(b.deep_view()));
            assert(all.take(i + 1) =~= all.take(i as int).push(all[i as int]));
        }
        i += 1;
    }
    proof {
        let all = bindings_of(methods.deep_view(), path@, fn_name@);
        assert(all.take(i as int) =~= all);
    }
    routes
}

/// A handler function, as declared.
#[derive(Debug, Clone, PartialEq, Eq)]
pub struct HandlerDecl {
    pub name: String,
    /// Its typed parameters, in order.
    pub inputs: Vec<Param>,
    pub has_return_type: bool,
}

pub struct HandlerDeclView {
    pub name: Seq<char>,
    pub inputs: Seq<ParamView>,
    pub has_return_type: bool,
}

impl DeepView for HandlerDecl {
    type V = HandlerDeclView;

    open spec fn deep_view(&self) -> HandlerDeclView {
        HandlerDeclView {
            name: self.name@,
            inputs: self.inputs.deep_view(),
            has_return_type: self.has_return_type,
        }
    }
}

/// What a route declaration becomes.
#[derive(Debug, Clone, PartialEq, Eq)]
pub struct RoutePlan {
    /// The signature of the rewritten handler.
    pub signature: SignaturePlan,
    /// The dependencies looked up before the handler's body runs.
    pub injections: Vec<Injection>,
    /// The bindings that add the handler to a router.
    pub routes: Vec<RouteBinding>,
    /// The query structure, if any parameter is query-marked.
    pub query_struct: Option<QueryStruct>,
}

pub struct RoutePlanView {
    pub signature: SignaturePlanView,
    pub injections: Seq<InjectionView>,
    pub routes: Seq<RouteBindingView>,
    pub query_struct: Option<QueryStructView>,
}

impl DeepView for RoutePlan {
    type V = RoutePlanView;

    open spec fn deep_view(&self) -> RoutePlanView {
        RoutePlanView {
            signature: self.signature.deep_view(),
            injections: self.injections.deep_view(),
            routes: self.routes.deep_view(),
            query_struct: self.query_struct.deep_view(),
        }
    }
}

/// The route that a handler gives under the arguments of its route
/// attribute. A rejected method list is reported before a rejected parameter.
pub open spec fn route_plan(args: Seq<MetaArgView>, decl: HandlerDeclView) -> Result<
    RoutePlanView,
    DeclError,
> {
    let path = normalized(raw_path(args));
    match route_methods(args) {
        Err(e) => Err(e),
        Ok(methods) => match classified(decl.inputs, params(path), query_struct_name(decl.name)) {
            Err(e) => Err(e),
            Ok(plan) => Ok(
                RoutePlanView {
                    signature: SignaturePlanView {
                        args: signature_args(plan.path_args, plan.extractors),
                        returns_any_response: !decl.has_return_type,
                    },
                    injections: plan.injections,
                    routes: bindings_of(methods, path, decl.name),
                    query_struct: plan.query_struct,
                },
            ),
        },
    }
}

/// Turns a handler and the arguments of its route attribute into a route.
pub fn make_route(args: &Vec<MetaArg>, input_fn: &HandlerDecl) -> (res: Result<
    RoutePlan,
    DeclError,
>)
    ensures
        match route_plan(args.deep_view(), input_fn.deep_view()) {
            Ok(plan) => res is Ok && res->Ok_0.deep_view() == plan,
            Err(e) => res is Err && res->Err_0 == e,
        },
{
    let path = extract_path(args);
    let methods = match extract_methods(args) {
        Ok(methods) => methods,
        Err(e) => {
            return Err(e);
        },
    };
    let plan = match process_inputs(&input_fn.inputs, path.as_str(), input_fn.name.as_str()) {
        Ok(plan) => plan,
        Err(e) => {
            return Err(e);
        },
    };
    let HandlerPlan { path_args, extractors, query_struct, injections } = plan;
    let signature = build_signature(path_args, extractors, input_fn.has_return_type);
    let routes = build_router_expr(&methods, path.as_str(), input_fn.name.as_str());
    Ok(RoutePlan { signature, injections, routes, query_struct })
}

/// The arguments that a method shorthand stands for.
pub open spec fn shorthand_args(path: Seq<char>, method: Seq<char>) -> Seq<MetaArgView> {
    seq![
        MetaArgView::NameValue { name: "path"@, value: ArgValueView::Str(path) },
        MetaArgView::NameValue { name: "method"@, value: ArgValueView::Str(method) },
    ]
}

/// The arguments of the route attribute that a method shorthand with the
/// given path stands for.
pub fn make_wrapper(path: &str, method: &str) -> (args: Vec<MetaArg>)
    ensures
        args.deep_view() == shorthand_args(path@, method@),
{
    let mut args: Vec<MetaArg> = Vec::new();
    let first = MetaArg::NameValue {
        name: "path".to_owned(),
        value: ArgValue::Str(path.to_owned()),
    };
    let second = MetaArg::NameValue {
        name: "method".to_owned(),
        value: ArgValue::Str(method.to_owned()),
    };
    args.push(first);
    args.push(second);
    proof {
        assert(args.deep_view() =~= shorthand_args(path@, method@));
    }
    args
}

/// An argument under a controller's prefix: a `path` argument with a string
/// has the prefix joined before it, any other argument stays.
pub open spec fn prefixed_arg(arg: MetaArgView, prefix: Seq<char>) -> MetaArgView {
    match arg {
        MetaArgView::NameValue { name, value: ArgValueView::Str(s) } => if name == "path"@ {
            MetaArgView::NameValue { name, value: ArgValueView::Str(joined(prefix, s)) }
        } else {
            arg
        },
        _ => arg,
    }
}

/// The arguments under a controller's prefix.
pub open spec fn prefixed_args(args: Seq<MetaArgView>, prefix: Seq<char>) -> Seq<MetaArgView> {
    Seq::new(args.len(), |i: int| prefixed_arg(args[i], prefix))
}

/// Puts a controller's prefix before the path of a route attribute inside it.
pub fn controller_update_attr(args: &mut Vec<MetaArg>, prefix: &str)
    ensures
        final(args).deep_view() == prefixed_args(old(args).deep_view(), prefix@),
{
    let ghost before = args.deep_view();
    let mut i: usize = 0;
    while i < args.len()
        invariant
            i <= args.len(),
            args.len() == before.len(),
            forall|j: int| 0 <= j < i ==> #[trigger] args.deep_view()[j] == prefixed_arg(
                before[j],
                prefix@,
            ),
            forall|j: int| i <= j < args.len() ==> #[trigger] args.deep_view()[j] == before[j],
        decreases args.len() - i,
    {
        let ghost entry = args.deep_view();
        let update = match &args[i] {
            MetaArg::NameValue { name, value } => {
                if str_eq(name.as_str(), "path") {
                    match value {
                        ArgValue::Str(s) => Some(join_path(prefix, s.as_str())),
                        _ => None,
                    }
                } else {
                    None
                }
            },
            MetaArg::Other => None,
        };
        proof {
            assert(entry[i as int] == before[i as int]);
        }
        match update {
            Some(path) => {
                let arg = MetaArg::NameValue { name: "path".to_owned(), value: ArgValue::Str(path) };
                let ghost raw = args@;
                args.set(i, arg);
                proof {
                    assert(args@ =~= raw.update(i as int, arg));
                    assert(arg.deep_view() == prefixed_arg(before[i as int], prefix@));
                }
            },
            None => {
                proof {
                    assert(entry[i as int] == prefixed_arg(before[i as int], prefix@));
                }
            },
        }
        proof {
            assert forall|j: int| 0 <= j < args.len() && j != i implies #[trigger] args.deep_view()[j]
                == entry[j] by {
                assert(args@[j].deep_view() == entry[j]);
            }
            assert(args.deep_view()[i as int] == prefixed_arg(before[i as int], prefix@));
        }
        i += 1;
    }
    proof {
        assert(args.deep_view() =~= prefixed_args(before, prefix@));
    }
}

/// A copy of a list of arguments.
pub fn copy_args(args: &Vec<MetaArg>) -> (copy: Vec<MetaArg>)
    ensures
        copy.deep_view() == args.deep_view(),
{
    let mut copy: Vec<MetaArg> = Vec::new();
    let mut i: usize = 0;
    while i < args.len()
        invariant
            i <= args.len(),
            copy.deep_view() == args.deep_view().take(i as int),
        decreases args.len() - i,
    {
        let ghost before = copy.deep_view();
        let arg = match &args[i] {
            MetaArg::NameValue { name, value } => {
                let value = match value {
                    ArgValue::Str(s) => ArgValue::Str(s.clone()),
                    ArgValue::Array(elems) => {
                        let mut out: Vec<Option<String>> = Vec::new();
                        let mut j: usize = 0;
                        while j < elems.len()
                            invariant
                                j <= elems.len(),
                                out.deep_view() == elems.deep_view().take(j as int),
                            decreases elems.len() - j,
                        {
                            let ghost so_far = out.deep_view();
                            let e = match &elems[j] {
                                Some(s) => Some(s.clone()),
                                None => None,
                            };
                            out.push(e);
                            proof {
                                assert(out.deep_view() =~= so_far.push(e.deep_view()));
                                assert(elems.deep_view().take(j + 1) =~= elems.deep_view().take(
                                    j as int,
                                ).push(elems.deep_view()[j as int]));
                            }
                            j += 1;
                        }
                        proof {
                            assert(elems.deep_view().take(j as int) =~= elems.deep_view());
                        }
                        ArgValue::Array(out)
                    },
                    ArgValue::Other => ArgValue::Other,
                };
                MetaArg::NameValue { name: name.clone(), value }
            },
            MetaArg::Other => MetaArg::Other,
        };
        copy.push(arg);
        proof {
            assert(copy.deep_view() =~= before.push(arg.deep_view()));
            assert(args.deep_view().take(i + 1) =~= args.deep_view().take(i as int).push(
                args.deep_view()[i as int],
            ));
        }
        i += 1;
    }
    proof {
        assert(args.deep_view().take(i as int) =~= args.deep_view());
    }
    copy
}

} // verus!
