//! What a handler declaration becomes: the arguments of the rewritten
//! handler, the query structure synthesized for it, and the dependencies
//! looked up before its body runs.

use vstd::prelude::*;

verus! {

/// Why a declaration is rejected.
#[derive(Clone, Copy, PartialEq, Eq, Structural, Debug)]
pub enum DeclError {
    /// A query-marked parameter is neither an identifier nor a tuple.
    QueryPattern,
    /// A query-marked tuple pattern whose type is no tuple.
    QueryTupleType,
    /// A query-marked tuple pattern with a part that is no identifier.
    QueryTupleElement,
    /// A query-marked tuple whose pattern and type differ in length.
    QueryTupleShape,
    /// A body marker with an option other than `json`, `form`, `multipart`.
    BodyOption,
    /// A body-marked parameter that is no identifier.
    BodyPattern,
    /// An injected parameter that is no identifier.
    DependencyPattern,
    /// A trait object whose last bound is no trait, so that no implementation
    /// can be looked up for it.
    DependencyTrait,
    /// A method list that is neither a string nor an array of strings.
    MethodList,
    /// A method array with an element that is no string.
    MethodElement,
    /// A service constructor with an argument that is no identifier.
    ServiceArgument,
    /// A state function without a return type.
    StateReturn,
    /// A method shorthand without a string as its path.
    RoutePath,
}

/// One field of the query structure.
#[derive(Debug, Clone, PartialEq, Eq)]
pub struct QueryField {
    pub name: String,
    /// The field's type; for an optional field, the type inside `Option`.
    pub ty: String,
    pub optional: bool,
}

pub struct QueryFieldView {
    pub name: Seq<char>,
    pub ty: Seq<char>,
    pub optional: bool,
}

impl DeepView for QueryField {
    type V = QueryFieldView;

    open spec fn deep_view(&self) -> QueryFieldView {
        QueryFieldView { name: self.name@, ty: self.ty@, optional: self.optional }
    }
}

/// The query structure synthesized for one handler.
#[derive(Debug, Clone, PartialEq, Eq)]
pub struct QueryStruct {
    pub name: String,
    pub fields: Vec<QueryField>,
}

pub struct QueryStructView {
    pub name: Seq<char>,
    pub fields: Seq<QueryFieldView>,
}

impl DeepView for QueryStruct {
    type V = QueryStructView;

    open spec fn deep_view(&self) -> QueryStructView {
        QueryStructView { name: self.name@, fields: self.fields.deep_view() }
    }
}

/// The encoding of a request body.
#[derive(Clone, Copy, PartialEq, Eq, Structural, Debug)]
pub enum BodyType {
    Json,
    Form,
    Multipart,
}

/// One argument of the rewritten handler, after the path tuple.
#[derive(Debug, Clone, PartialEq, Eq)]
pub enum Extractor {
    /// The query structure, destructured into its fields.
    Query,
    /// A body in the given encoding, bound to `name`.
    Body { mode: BodyType, name: String, ty: String, optional: bool },
    /// The declared parameter at this position, unchanged.
    Passthrough { index: usize },
}

pub enum ExtractorView {
    Query,
    Body { mode: BodyType, name: Seq<char>, ty: Seq<char>, optional: bool },
    Passthrough { index: int },
}

impl DeepView for Extractor {
    type V = ExtractorView;

    open spec fn deep_view(&self) -> ExtractorView {
        match self {
            Extractor::Query => ExtractorView::Query,
            Extractor::Body { mode, name, ty, optional } => ExtractorView::Body {
                mode: *mode,
                name: name@,
                ty: ty@,
                optional: *optional,
            },
            Extractor::Passthrough { index } => ExtractorView::Passthrough { index: *index as int },
        }
    }
}

/// How a dependency is looked up in the container.
#[derive(Debug, Clone, PartialEq, Eq)]
pub enum Lookup {
    /// By the parameter's declared type.
    ByType(String),
    /// By the one implementation registered for the named trait.
    ByTrait(String),
}

pub enum LookupView {
    ByType(Seq<char>),
    ByTrait(Seq<char>),
}

impl DeepView for Lookup {
    type V = LookupView;

    open spec fn deep_view(&self) -> LookupView {
        match self {
            Lookup::ByType(ty) => LookupView::ByType(ty@),
            Lookup::ByTrait(name) => LookupView::ByTrait(name@),
        }
    }
}

/// A dependency bound to `name` before the handler's body runs.
#[derive(Debug, Clone, PartialEq, Eq)]
pub struct Injection {
    pub name: String,
    pub lookup: Lookup,
}

pub struct InjectionView {
    pub name: Seq<char>,
    pub lookup: LookupView,
}

impl DeepView for Injection {
    type V = InjectionView;

    open spec fn deep_view(&self) -> InjectionView {
        InjectionView { name: self.name@, lookup: self.lookup.deep_view() }
    }
}

/// One element of the path tuple.
#[derive(Debug, Clone, PartialEq, Eq)]
pub struct PathBinding {
    pub name: String,
    pub ty: String,
}

pub struct PathBindingView {
    pub name: Seq<char>,
    pub ty: Seq<char>,
}

impl DeepView for PathBinding {
    type V = PathBindingView;

    open spec fn deep_view(&self) -> PathBindingView {
        PathBindingView { name: self.name@, ty: self.ty@ }
    }
}

/// The outcome of classifying a handler's parameters.
#[derive(Debug, Clone, PartialEq, Eq)]
pub struct HandlerPlan {
    /// The parameters bound from the path, in the order of declaration.
    pub path_args: Vec<PathBinding>,
    /// The other arguments of the rewritten handler, in order.
    pub extractors: Vec<Extractor>,
    /// The query structure, if any parameter is query-marked.
    pub query_struct: Option<QueryStruct>,
    /// The dependencies to look up, in the order of declaration.
    pub injections: Vec<Injection>,
}

pub struct HandlerPlanView {
    pub path_args: Seq<PathBindingView>,
    pub extractors: Seq<ExtractorView>,
    pub query_struct: Option<QueryStructView>,
    pub injections: Seq<InjectionView>,
}

impl DeepView for HandlerPlan {
    type V = HandlerPlanView;

    open spec fn deep_view(&self) -> HandlerPlanView {
        HandlerPlanView {
            path_args: self.path_args.deep_view(),
            extractors: self.extractors.deep_view(),
            query_struct: self.query_struct.deep_view(),
            injections: self.injections.deep_view(),
        }
    }
}

} // verus!
