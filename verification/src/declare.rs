//! What the declarations of states, services and controllers become: the
//! registration of a factory, and the routes of a controller under its
//! prefix.

use crate::args::StateArgs;
use crate::path::{join_path, joined};
use crate::plan::{DeclError, Injection, InjectionView, Lookup, LookupView};
use crate::route::{
    controller_update_attr, copy_args, make_route, make_wrapper, prefixed_args, route_attr_type, route_plan,
    shorthand_args, valid_route_macro, HandlerDecl, HandlerDeclView, MetaArg, MetaArgView,
    RouteAttrType, RouteAttrTypeView, RoutePlan, RoutePlanView,
};
use vstd::prelude::*;
use vstd::string::*;

verus! {

/// The registration that a state function becomes.
#[derive(Debug, Clone, PartialEq, Eq)]
pub struct StatePlan {
    /// The type that the function returns: the key of the registration.
    pub output_ty: String,
    pub prewarm: bool,
    /// The name of the generated factory.
    pub init_fn_name: String,
    /// The name of the generated function that describes the registration.
    pub def_fn_name: String,
}

/// The name of the factory generated for `name`.
pub open spec fn init_name(name: Seq<char>) -> Seq<char> {
    "__init_"@ + name
}

/// The name of the describing function generated for `name`.
pub open spec fn def_name(name: Seq<char>) -> Seq<char> {
    "__state_def_"@ + name
}

/// The name of the function generated to look up the implementation of a
/// trait.
pub open spec fn getter_name(trait_name: Seq<char>) -> Seq<char> {
    "__exum_TDI_get_"@ + trait_name
}

/// The name of the module generated for a controller.
pub open spec fn module_name(controller: Seq<char>) -> Seq<char> {
    "__exum_generated_"@ + controller
}

/// A prefix and a name put together.
pub fn prefixed_name(prefix: &str, name: &str) -> (out: String)
    ensures
        out@ == prefix@ + name@,
{
    let mut out = prefix.to_owned();
    out.append(name);
    out
}

/// Turns a state function into a registration. A function without a return
/// type is rejected.
pub fn state(args: &StateArgs, fn_name: &str, output: &Option<String>) -> (res: Result<
    StatePlan,
    DeclError,
>)
    ensures
        match output {
            Some(ty) => res is Ok && res->Ok_0.output_ty@ == ty@ && res->Ok_0.prewarm
                == args.prewarm && res->Ok_0.init_fn_name@ == init_name(fn_name@)
                && res->Ok_0.def_fn_name@ == def_name(fn_name@),
            None => res is Err && res->Err_0 == DeclError::StateReturn,
        },
{
    match output {
        Some(ty) => Ok(
            StatePlan {
                output_ty: ty.clone(),
                prewarm: args.prewarm,
                init_fn_name: prefixed_name("__init_", fn_name),
                def_fn_name: prefixed_name("__state_def_", fn_name),
            },
        ),
        None => Err(DeclError::StateReturn),
    }
}

/// A typed argument of a method: its identifier, if its pattern is one, and
/// its type as written.
#[derive(Debug, Clone, PartialEq, Eq)]
pub struct MethodArg {
    pub ident: Option<String>,
    pub ty: String,
}

pub struct MethodArgView {
    pub ident: Option<Seq<char>>,
    pub ty: Seq<char>,
}

impl DeepView for MethodArg {
    type V = MethodArgView;

    open spec fn deep_view(&self) -> MethodArgView {
        MethodArgView { ident: self.ident.deep_view(), ty: self.ty@ }
    }
}

/// A method of a service's block: its name and its typed arguments.
#[derive(Debug, Clone, PartialEq, Eq)]
pub struct MethodSig {
    pub name: String,
    pub args: Vec<MethodArg>,
}

pub struct MethodSigView {
    pub name: Seq<char>,
    pub args: Seq<MethodArgView>,
}

impl DeepView for MethodSig {
    type V = MethodSigView;

    open spec fn deep_view(&self) -> MethodSigView {
        MethodSigView { name: self.name@, args: self.args.deep_view() }
    }
}

/// A service's block, as declared.
#[derive(Debug, Clone, PartialEq, Eq)]
pub struct ServiceDecl {
    /// The last segment of the type's path, if the type is a path.
    pub type_ident: Option<String>,
    /// The last segment of the trait's path, if the block implements one.
    pub trait_ident: Option<String>,
    pub methods: Vec<MethodSig>,
}

pub struct ServiceDeclView {
    pub type_ident: Option<Seq<char>>,
    pub trait_ident: Option<Seq<char>>,
    pub methods: Seq<MethodSigView>,
}

impl DeepView for ServiceDecl {
    type V = ServiceDeclView;

    open spec fn deep_view(&self) -> ServiceDeclView {
        ServiceDeclView {
            type_ident: self.type_ident.deep_view(),
            trait_ident: self.trait_ident.deep_view(),
            methods: self.methods.deep_view(),
        }
    }
}

/// The registration that a service's block becomes.
#[derive(Debug, Clone, PartialEq, Eq)]
pub struct ServicePlan {
    pub type_ident: String,
    pub prewarm: bool,
    pub init_fn_name: String,
    pub def_fn_name: String,
    /// The name of the function that looks the service up by its trait.
    pub getter_fn_name: Option<String>,
    /// The services that the constructor takes, looked up in this order before
    /// it is called.
    pub dependencies: Vec<Injection>,
}

pub struct ServicePlanView {
    pub type_ident: Seq<char>,
    pub prewarm: bool,
    pub init_fn_name: Seq<char>,
    pub def_fn_name: Seq<char>,
    pub getter_fn_name: Option<Seq<char>>,
    pub dependencies: Seq<InjectionView>,
}

impl DeepView for ServicePlan {
    type V = ServicePlanView;

    open spec fn deep_view(&self) -> ServicePlanView {
        ServicePlanView {
            type_ident: self.type_ident@,
            prewarm: self.prewarm,
            init_fn_name: self.init_fn_name@,
            def_fn_name: self.def_fn_name@,
            getter_fn_name: self.getter_fn_name.deep_view(),
            dependencies: self.dependencies.deep_view(),
        }
    }
}

/// The dependencies that the first `n` arguments give: each is looked up by
/// its type and bound to its identifier. An argument that is no identifier is
/// rejected.
pub open spec fn arg_dependencies(args: Seq<MethodArgView>, n: int) -> Result<
    Seq<InjectionView>,
    DeclError,
>
    decreases n,
{
    if n <= 0 {
        Ok(Seq::empty())
    } else {
        match arg_dependencies(args, n - 1) {
            Err(e) => Err(e),
            Ok(before) => match args[n - 1].ident {
                Some(name) => Ok(
                    before.push(
                        InjectionView { name, lookup: LookupView::ByType(args[n - 1].ty) },
                    ),
                ),
                None => Err(DeclError::ServiceArgument),
            },
        }
    }
}

/// The dependencies of a service: those of the arguments of its methods
/// named `new`, in order.
pub open spec fn service_dependencies(methods: Seq<MethodSigView>, n: int) -> Result<
    Seq<InjectionView>,
    DeclError,
>
    decreases n,
{
    if n <= 0 {
        Ok(Seq::empty())
    } else {
        match service_dependencies(methods, n - 1) {
            Err(e) => Err(e),
            Ok(before) => if methods[n - 1].name == "new"@ {
                match arg_dependencies(methods[n - 1].args, methods[n - 1].args.len() as int) {
                    Ok(more) => Ok(before + more),
                    Err(e) => Err(e),
                }
            } else {
                Ok(before)
            },
        }
    }
}

/// The name under which a service is registered: its type's last segment,
/// or a stand-in where the type is no path.
pub open spec fn service_type(decl: ServiceDeclView) -> Seq<char> {
    match decl.type_ident {
        Some(name) => name,
        None => "UnknowType"@,
    }
}

/// The registration that a service's block gives.
pub open spec fn service_plan(prewarm: bool, decl: ServiceDeclView) -> Result<
    ServicePlanView,
    DeclError,
> {
    match service_dependencies(decl.methods, decl.methods.len() as int) {
        Err(e) => Err(e),
        Ok(dependencies) => Ok(
            ServicePlanView {
                type_ident: service_type(decl),
                prewarm,
                init_fn_name: init_name(service_type(decl)),
                def_fn_name: def_name(service_type(decl)),
                getter_fn_name: match decl.trait_ident {
                    Some(t) => Some(getter_name(t)),
                    None => None,
                },
                dependencies,
            },
        ),
    }
}

/// Adds the dependencies of a constructor's arguments to `deps`.
fn collect_arg_dependencies(args: &Vec<MethodArg>, deps: &mut Vec<Injection>) -> (res: Result<
    (),
    DeclError,
>)
    ensures
        match arg_dependencies(args.deep_view(), args.len() as int) {
            Ok(more) => res is Ok && final(deps).deep_view() == old(deps).deep_view() + more,
            Err(e) => res is Err && res->Err_0 == e,
        },
{
    let ghost before = deps.deep_view();
    let mut i: usize = 0;
    proof {
        assert(before + Seq::<InjectionView>::empty() =~= before);
    }
    while i < args.len()
        invariant
            i <= args.len(),
            arg_dependencies(args.deep_view(), i as int) is Ok,
            deps.deep_view() == before + arg_dependencies(args.deep_view(), i as int)->Ok_0,
        decreases args.len() - i,
    {
        match &args[i].ident {
            Some(name) => {
                let ghost so_far = deps.deep_view();
                let dep = Injection { name: name.clone(), lookup: Lookup::ByType(args[i].ty.clone()) };
                deps.push(dep);
                proof {
                    assert(deps.deep_view() =~= so_far.push(dep.deep_view()));
                    assert(deps.deep_view() =~= before + arg_dependencies(
                        args.deep_view(),
                        i + 1,
                    )->Ok_0);
                }
            },
            None => {
                proof {
                    lemma_arg_dependencies_error_stays(args.deep_view(), i + 1, args.len() as int);
                }
                return Err(DeclError::ServiceArgument);
            },
        }
        i += 1;
    }
    Ok(())
}

/// An error among the first arguments is the error of all of them.
pub proof fn lemma_arg_dependencies_error_stays(args: Seq<MethodArgView>, n: int, m: int)
    requires
        0 <= n <= m,
        arg_dependencies(args, n) is Err,
    ensures
        arg_dependencies(args, m) == arg_dependencies(args, n),
    decreases m - n,
{
    if n < m {
        lemma_arg_dependencies_error_stays(args, n, m - 1);
    }
}

/// An error among the first methods is the error of all of them.
pub proof fn lemma_service_dependencies_error_stays(methods: Seq<MethodSigView>, n: int, m: int)
    requires
        0 <= n <= m,
        service_dependencies(methods, n) is Err,
    ensures
        service_dependencies(methods, m) == service_dependencies(methods, n),
    decreases m - n,
{
    if n < m {
        lemma_service_dependencies_error_stays(methods, n, m - 1);
    }
}

/// Turns a service's block into a registration.
pub fn service(args: &StateArgs, decl: &ServiceDecl) -> (res: Result<ServicePlan, DeclError>)
    ensures
        match service_plan(args.prewarm, decl.deep_view()) {
            Ok(plan) => res is Ok && res->Ok_0.deep_view() == plan,
            Err(e) => res is Err && res->Err_0 == e,
        },
{
    let mut dependencies: Vec<Injection> = Vec::new();
    let mut i: usize = 0;
    proof {
        assert(dependencies.deep_view() =~= Seq::<InjectionView>::empty());
    }
    while i < decl.methods.len()
        invariant
            i <= decl.methods.len(),
            service_dependencies(decl.methods.deep_view(), i as int) == Ok::<
                Seq<InjectionView>,
                DeclError,
            >(dependencies.deep_view()),
        decreases decl.methods.len() - i,
    {
        let method = &decl.methods[i];
        if crate::text::str_eq(method.name.as_str(), "new") {
            match collect_arg_dependencies(&method.args, &mut dependencies) {
                Ok(()) => {},
                Err(e) => {
                    proof {
                        lemma_service_dependencies_error_stays(
                            decl.methods.deep_view(),
                            i + 1,
                            decl.methods.len() as int,
                        );
                    }
                    return Err(e);
                },
            }
        }
        i += 1;
    }
    let type_ident = match &decl.type_ident {
        Some(name) => name.clone(),
        None => "UnknowType".to_owned(),
    };
    let getter_fn_name = match &decl.trait_ident {
        Some(t) => Some(prefixed_name("__exum_TDI_get_", t.as_str())),
        None => None,
    };
    let init_fn_name = prefixed_name("__init_", type_ident.as_str());
    let def_fn_name = prefixed_name("__state_def_", type_ident.as_str());
    Ok(
        ServicePlan {
            type_ident,
            prewarm: args.prewarm,
            init_fn_name,
            def_fn_name,
            getter_fn_name,
            dependencies,
        },
    )
}

/// An attribute on a method of a controller.
#[derive(Debug, Clone, PartialEq, Eq)]
pub struct MethodAttr {
    /// The attribute's name, if its path is a single identifier.
    pub name: Option<String>,
    /// The attribute's argument, if it is a single string.
    pub literal: Option<String>,
    /// The attribute's arguments, read as those of a route attribute.
    pub args: Vec<MetaArg>,
}

pub struct MethodAttrView {
    pub name: Option<Seq<char>>,
    pub literal: Option<Seq<char>>,
    pub args: Seq<MetaArgView>,
}

impl DeepView for MethodAttr {
    type V = MethodAttrView;

    open spec fn deep_view(&self) -> MethodAttrView {
        MethodAttrView {
            name: self.name.deep_view(),
            literal: self.literal.deep_view(),
            args: self.args.deep_view(),
        }
    }
}

/// A method of a controller, as declared.
#[derive(Debug, Clone, PartialEq, Eq)]
pub struct ControllerMethod {
    pub attrs: Vec<MethodAttr>,
    pub decl: HandlerDecl,
}

pub struct ControllerMethodView {
    pub attrs: Seq<MethodAttrView>,
    pub decl: HandlerDeclView,
}

impl DeepView for ControllerMethod {
    type V = ControllerMethodView;

    open spec fn deep_view(&self) -> ControllerMethodView {
        ControllerMethodView { attrs: self.attrs.deep_view(), decl: self.decl.deep_view() }
    }
}

/// A controller's block, as declared.
#[derive(Debug, Clone, PartialEq, Eq)]
pub struct ControllerDecl {
    /// The last segment of the type's path, if the type is a path.
    pub type_ident: Option<String>,
    pub methods: Vec<ControllerMethod>,
}

pub struct ControllerDeclView {
    pub type_ident: Option<Seq<char>>,
    pub methods: Seq<ControllerMethodView>,
}

impl DeepView for ControllerDecl {
    type V = ControllerDeclView;

    open spec fn deep_view(&self) -> ControllerDeclView {
        ControllerDeclView {
            type_ident: self.type_ident.deep_view(),
            methods: self.methods.deep_view(),
        }
    }
}

/// What a method of a controller becomes.
#[derive(Debug, Clone, PartialEq, Eq)]
pub enum ControllerItem {
    /// A route of the controller's sub-router.
    Route(RoutePlan),
    /// The method as it is.
    Plain,
}

pub enum ControllerItemView {
    Route(RoutePlanView),
    Plain,
}

impl DeepView for ControllerItem {
    type V = ControllerItemView;

    open spec fn deep_view(&self) -> ControllerItemView {
        match self {
            ControllerItem::Route(plan) => ControllerItemView::Route(plan.deep_view()),
            ControllerItem::Plain => ControllerItemView::Plain,
        }
    }
}

/// What a controller's block becomes.
#[derive(Debug, Clone, PartialEq, Eq)]
pub struct ControllerPlan {
    /// The name of the generated module.
    pub module_name: String,
    /// One item for each method, in order; the routes among them make up the
    /// controller's sub-router, in this order.
    pub items: Vec<ControllerItem>,
}

pub struct ControllerPlanView {
    pub module_name: Seq<char>,
    pub items: Seq<ControllerItemView>,
}

impl DeepView for ControllerPlan {
    type V = ControllerPlanView;

    open spec fn deep_view(&self) -> ControllerPlanView {
        ControllerPlanView { module_name: self.module_name@, items: self.items.deep_view() }
    }
}

/// The route arguments that one attribute gives under a prefix, if it is a
/// route attribute or a method shorthand. A shorthand whose argument is no
/// string is rejected.
pub open spec fn attr_route_args(attr: MethodAttrView, prefix: Seq<char>) -> Result<
    Option<Seq<MetaArgView>>,
    DeclError,
> {
    match attr.name {
        None => Ok(None),
        Some(name) => match route_attr_type(name) {
            RouteAttrTypeView::Route => Ok(Some(prefixed_args(attr.args, prefix))),
            RouteAttrTypeView::Derive(method) => match attr.literal {
                Some(path) => Ok(Some(shorthand_args(joined(prefix, path), method))),
                None => Err(DeclError::RoutePath),
            },
            RouteAttrTypeView::Not => Ok(None),
        },
    }
}

/// The route arguments that the first `n` attributes of a method give: those
/// of the last attribute that gives any.
pub open spec fn method_route_args(attrs: Seq<MethodAttrView>, prefix: Seq<char>, n: int) -> Result<
    Option<Seq<MetaArgView>>,
    DeclError,
>
    decreases n,
{
    if n <= 0 {
        Ok(None)
    } else {
        match method_route_args(attrs, prefix, n - 1) {
            Err(e) => Err(e),
            Ok(before) => match attr_route_args(attrs[n - 1], prefix) {
                Err(e) => Err(e),
                Ok(Some(args)) => Ok(Some(args)),
                Ok(None) => Ok(before),
            },
        }
    }
}

/// What a method of a controller becomes under a prefix.
pub open spec fn controller_item(method: ControllerMethodView, prefix: Seq<char>) -> Result<
    ControllerItemView,
    DeclError,
> {
    match method_route_args(method.attrs, prefix, method.attrs.len() as int) {
        Err(e) => Err(e),
        Ok(None) => Ok(ControllerItemView::Plain),
        Ok(Some(args)) => match route_plan(args, method.decl) {
            Ok(plan) => Ok(ControllerItemView::Route(plan)),
            Err(e) => Err(e),
        },
    }
}

/// What the first `n` methods of a controller become, or the error of the
/// first one that is rejected.
pub open spec fn controller_items(
    methods: Seq<ControllerMethodView>,
    prefix: Seq<char>,
    n: int,
) -> Result<Seq<ControllerItemView>, DeclError>
    decreases n,
{
    if n <= 0 {
        Ok(Seq::empty())
    } else {
        match controller_items(methods, prefix, n - 1) {
            Err(e) => Err(e),
            Ok(before) => match controller_item(methods[n - 1], prefix) {
                Ok(item) => Ok(before.push(item)),
                Err(e) => Err(e),
            },
        }
    }
}

/// The name of a controller: its type's last segment, or a stand-in where
/// the type is no path.
pub open spec fn controller_name(decl: ControllerDeclView) -> Seq<char> {
    match decl.type_ident {
        Some(name) => name,
        None => "UnknownController"@,
    }
}

/// What a controller's block becomes under a prefix.
pub open spec fn controller_plan(prefix: Seq<char>, decl: ControllerDeclView) -> Result<
    ControllerPlanView,
    DeclError,
> {
    match controller_items(decl.methods, prefix, decl.methods.len() as int) {
        Err(e) => Err(e),
        Ok(items) => Ok(ControllerPlanView { module_name: module_name(controller_name(decl)), items }),
    }
}

/// An error among the first attributes is the error of all of them.
pub proof fn lemma_method_route_args_error_stays(
    attrs: Seq<MethodAttrView>,
    prefix: Seq<char>,
    n: int,
    m: int,
)
    requires
        0 <= n <= m,
        method_route_args(attrs, prefix, n) is Err,
    ensures
        method_route_args(attrs, prefix, m) == method_route_args(attrs, prefix, n),
    decreases m - n,
{
    if n < m {
        lemma_method_route_args_error_stays(attrs, prefix, n, m - 1);
    }
}

/// An error among the first methods is the error of all of them.
pub proof fn lemma_controller_items_error_stays(
    methods: Seq<ControllerMethodView>,
    prefix: Seq<char>,
    n: int,
    m: int,
)
    requires
        0 <= n <= m,
        controller_items(methods, prefix, n) is Err,
    ensures
        controller_items(methods, prefix, m) == controller_items(methods, prefix, n),
    decreases m - n,
{
    if n < m {
        lemma_controller_items_error_stays(methods, prefix, n, m - 1);
    }
}

/// The route arguments that the attributes of a method give under a prefix.
pub fn route_args_of(attrs: &Vec<MethodAttr>, prefix: &str) -> (res: Result<
    Option<Vec<MetaArg>>,
    DeclError,
>)
    ensures
        match method_route_args(attrs.deep_view(), prefix@, attrs.len() as int) {
            Ok(args) => res is Ok && res->Ok_0.deep_view() == args,
            Err(e) => res is Err && res->Err_0 == e,
        },
{
    let mut found: Option<Vec<MetaArg>> = None;
    let mut i: usize = 0;
    while i < attrs.len()
        invariant
            i <= attrs.len(),
            method_route_args(attrs.deep_view(), prefix@, i as int) == Ok::<
                Option<Seq<MetaArgView>>,
                DeclError,
            >(found.deep_view()),
        decreases attrs.len() - i,
    {
        let attr = &attrs[i];
        match &attr.name {
            Some(name) => match valid_route_macro(name.as_str()) {
                RouteAttrType::Route => {
                    let mut args = copy_args(&attr.args);
                    controller_update_attr(&mut args, prefix);
                    found = Some(args);
                },
                RouteAttrType::Derive(method) => match &attr.literal {
                    Some(path) => {
                        let full = join_path(prefix, path.as_str());
                        found = Some(make_wrapper(full.as_str(), method.as_str()));
                    },
                    None => {
                        proof {
                            lemma_method_route_args_error_stays(
                                attrs.deep_view(),
                                prefix@,
                                i + 1,
                                attrs.len() as int,
                            );
                        }
                        return Err(DeclError::RoutePath);
                    },
                },
                RouteAttrType::Not => {},
            },
            None => {},
        }
        i += 1;
    }
    Ok(found)
}

/// Turns a controller's block into its module and the routes of its
/// sub-router, each under the controller's prefix.
pub fn controller(prefix: &str, decl: &ControllerDecl) -> (res: Result<ControllerPlan, DeclError>)
    ensures
        match controller_plan(prefix@, decl.deep_view()) {
            Ok(plan) => res is Ok && res->Ok_0.deep_view() == plan,
            Err(e) => res is Err && res->Err_0 == e,
        },
{
    let mut items: Vec<ControllerItem> = Vec::new();
    let mut i: usize = 0;
    proof {
        assert(items.deep_view() =~= Seq::<ControllerItemView>::empty());
    }
    while i < decl.methods.len()
        invariant
            i <= decl.methods.len(),
            controller_items(decl.methods.deep_view(), prefix@, i as int) == Ok::<
                Seq<ControllerItemView>,
                DeclError,
            >(items.deep_view()),
        decreases decl.methods.len() - i,
    {
        let method = &decl.methods[i];
        let ghost before = items.deep_view();
        let step = match route_args_of(&method.attrs, prefix) {
            Err(e) => Err(e),
            Ok(None) => Ok(ControllerItem::Plain),
            Ok(Some(args)) => match make_route(&args, &method.decl) {
                Ok(plan) => Ok(ControllerItem::Route(plan)),
                Err(e) => Err(e),
            },
        };
        match step {
            Ok(item) => {
                items.push(item);
                proof {
                    assert(items.deep_view() =~= before.push(item.deep_view()));
                }
            },
            Err(e) => {
                proof {
                    lemma_controller_items_error_stays(
                        decl.methods.deep_view(),
                        prefix@,
                        i + 1,
                        decl.methods.len() as int,
                    );
                }
                return Err(e);
            },
        }
        i += 1;
    }
    let name = match &decl.type_ident {
        Some(name) => name.clone(),
        None => "UnknownController".to_owned(),
    };
    Ok(ControllerPlan { module_name: prefixed_name("__exum_generated_", name.as_str()), items })
}

} // verus!
