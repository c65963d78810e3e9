//! The parameter classifier: what each declared parameter of a handler is,
//! and the plan that the handler's parameters give together.
//!
//! The rules are tried in this order, and the first that applies decides:
//! a `q` attribute makes a query parameter; a `b` attribute makes a body
//! parameter; an identifier that the path declares is a path parameter; a
//! parameter of a framework-native type is passed through; a parameter whose
//! type is a trait object is a dependency looked up by its trait; any other
//! identifier is a dependency looked up by its type, and any other pattern is
//! passed through. Every parameter falls in one class or is rejected: none
//! is left out.

use crate::param::{
    ElementType, ElementTypeView, Param, ParamAttr, ParamAttrView, ParamPattern, ParamPatternView,
    ParamView, PathType, PathTypeView, TypeShape, TypeShapeView,
};
use crate::path::{extract_params, params};
use crate::plan::{
    BodyType, DeclError, Extractor, ExtractorView, HandlerPlan, HandlerPlanView, Injection,
    InjectionView, Lookup, LookupView, PathBinding, PathBindingView, QueryField, QueryFieldView,
    QueryStruct, QueryStructView,
};
use crate::text::str_eq;
use convert_case::{Case, Casing};
use vstd::prelude::*;
use vstd::string::*;

verus! {

/// Whether one of the attributes has the given name.
pub open spec fn has_attr(attrs: Seq<ParamAttrView>, name: Seq<char>) -> bool {
    exists|i: int| 0 <= i < attrs.len() && (#[trigger] attrs[i]).name == name
}

/// The type inside `Option<..>`, where the path is one.
pub open spec fn option_inner(path: Option<PathTypeView>) -> Option<Seq<char>> {
    match path {
        Some(p) => if p.last_segment == "Option"@ {
            p.first_argument
        } else {
            None
        },
        None => None,
    }
}

/// What is read of a parameter's type as a path, if it is one.
pub open spec fn path_of_shape(shape: TypeShapeView) -> Option<PathTypeView> {
    match shape {
        TypeShapeView::Path(p) => Some(p),
        _ => None,
    }
}

/// The query field for a name and a type: optional, with the inner type, if
/// the type is an `Option`; required, with the type itself, if not.
pub open spec fn field_of(
    name: Seq<char>,
    text: Seq<char>,
    path: Option<PathTypeView>,
) -> QueryFieldView {
    match option_inner(path) {
        Some(inner) => QueryFieldView { name, ty: inner, optional: true },
        None => QueryFieldView { name, ty: text, optional: false },
    }
}

/// The fields that a tuple of identifiers and a tuple of types give, one per
/// position.
pub open spec fn tuple_fields(
    parts: Seq<Option<Seq<char>>>,
    elems: Seq<ElementTypeView>,
) -> Seq<QueryFieldView> {
    Seq::new(parts.len(), |i: int| field_of(parts[i]->0, elems[i].text, elems[i].path))
}

/// The fields that a query-marked parameter adds to the query structure, or
/// why it is rejected.
pub open spec fn query_fields(p: ParamView) -> Result<Seq<QueryFieldView>, DeclError> {
    match p.pattern {
        ParamPatternView::Ident(name) => Ok(seq![field_of(name, p.ty, path_of_shape(p.shape))]),
        ParamPatternView::Tuple(parts) => match p.shape {
            TypeShapeView::Tuple(elems) => if parts.len() != elems.len() {
                Err(DeclError::QueryTupleShape)
            } else if exists|i: int| 0 <= i < parts.len() && (#[trigger] parts[i]) is None {
                Err(DeclError::QueryTupleElement)
            } else {
                Ok(tuple_fields(parts, elems))
            },
            _ => Err(DeclError::QueryTupleType),
        },
        ParamPatternView::Other => Err(DeclError::QueryPattern),
    }
}

/// The encoding that an option of the body marker selects.
pub open spec fn mode_of_option(option: Seq<char>) -> Option<BodyType> {
    if option == "json"@ {
        Some(BodyType::Json)
    } else if option == "form"@ {
        Some(BodyType::Form)
    } else if option == "multipart"@ {
        Some(BodyType::Multipart)
    } else {
        None
    }
}

/// The options of all body markers, in order.
pub open spec fn body_options(attrs: Seq<ParamAttrView>) -> Seq<Seq<char>>
    decreases attrs.len(),
{
    if attrs.len() == 0 {
        Seq::empty()
    } else if attrs.last().name == "b"@ {
        body_options(attrs.drop_last()) + attrs.last().options
    } else {
        body_options(attrs.drop_last())
    }
}

/// The encoding that a list of options selects: JSON without any option,
/// else what the last option says; an unknown option is rejected.
pub open spec fn mode_of_options(options: Seq<Seq<char>>) -> Result<BodyType, DeclError> {
    if exists|i: int| 0 <= i < options.len() && mode_of_option(#[trigger] options[i]) is None {
        Err(DeclError::BodyOption)
    } else if options.len() == 0 {
        Ok(BodyType::Json)
    } else {
        Ok(mode_of_option(options.last())->0)
    }
}

/// The body extractor that a body-marked parameter becomes, or why it is
/// rejected.
pub open spec fn body_extractor(p: ParamView) -> Result<ExtractorView, DeclError> {
    match mode_of_options(body_options(p.attrs)) {
        Err(e) => Err(e),
        Ok(mode) => match p.pattern {
            ParamPatternView::Ident(name) => match option_inner(path_of_shape(p.shape)) {
                Some(inner) => Ok(ExtractorView::Body { mode, name, ty: inner, optional: true }),
                None => Ok(ExtractorView::Body { mode, name, ty: p.ty, optional: false }),
            },
            _ => Err(DeclError::BodyPattern),
        },
    }
}

/// The dependency that a parameter becomes, looked up as given, or why it is
/// rejected.
pub open spec fn injection(p: ParamView, lookup: LookupView) -> Result<InjectionView, DeclError> {
    match p.pattern {
        ParamPatternView::Ident(name) => Ok(InjectionView { name, lookup }),
        _ => Err(DeclError::DependencyPattern),
    }
}

/// Whether a type name is one that the HTTP layer extracts by itself.
pub open spec fn is_native(name: Seq<char>) -> bool {
    ||| name == "Method"@
    ||| name == "Uri"@
    ||| name == "Version"@
    ||| name == "HeaderMap"@
    ||| name == "String"@
    ||| name == "Bytes"@
    ||| name == "Body"@
    ||| name == "OriginalUri"@
    ||| name == "MatchedPath"@
    ||| name == "RawQuery"@
    ||| name == "Value"@
}

/// What a parameter is.
pub enum ParamClass {
    /// It is a dependency, looked up before the body runs.
    Inject(InjectionView),
    /// It adds these fields to the query structure.
    Query(Seq<QueryFieldView>),
    /// It is read from the request body.
    Body(ExtractorView),
    /// It is bound from the path.
    Path(PathBindingView),
    /// It is handed to the HTTP layer unchanged.
    Passthrough,
    /// The declaration is rejected.
    Invalid(DeclError),
}

/// Whether a parameter is an identifier that the path declares.
pub open spec fn names_path_parameter(p: ParamView, names: Seq<Seq<char>>) -> bool {
    p.pattern matches ParamPatternView::Ident(name) && names.contains(name)
}

/// Whether a parameter's type is one that the HTTP layer extracts by itself.
pub open spec fn has_native_type(p: ParamView) -> bool {
    p.shape matches TypeShapeView::Path(path) && is_native(path.last_segment)
}

/// The class of a parameter that is a dependency: a trait object is looked
/// up by the trait that is its last bound, and rejected where that bound is
/// no trait or the parameter no identifier; any other identifier is looked
/// up by its type, and any other pattern is passed through.
pub open spec fn classify_dependency(p: ParamView) -> ParamClass {
    match p.shape {
        TypeShapeView::TraitObject(Some(name)) => match injection(p, LookupView::ByTrait(name)) {
            Ok(i) => ParamClass::Inject(i),
            Err(e) => ParamClass::Invalid(e),
        },
        TypeShapeView::TraitObject(None) => ParamClass::Invalid(DeclError::DependencyTrait),
        _ => match p.pattern {
            ParamPatternView::Ident(name) => ParamClass::Inject(
                InjectionView { name, lookup: LookupView::ByType(p.ty) },
            ),
            _ => ParamClass::Passthrough,
        },
    }
}

/// The class of a parameter, given the names that the path declares: a
/// marker decides first, then the path's names, then the type.
pub open spec fn classify(p: ParamView, names: Seq<Seq<char>>) -> ParamClass {
    if has_attr(p.attrs, "q"@) {
        match query_fields(p) {
            Ok(fields) => ParamClass::Query(fields),
            Err(e) => ParamClass::Invalid(e),
        }
    } else if has_attr(p.attrs, "b"@) {
        match body_extractor(p) {
            Ok(x) => ParamClass::Body(x),
            Err(e) => ParamClass::Invalid(e),
        }
    } else if names_path_parameter(p, names) {
        ParamClass::Path(PathBindingView { name: p.pattern->Ident_0, ty: p.ty })
    } else if has_native_type(p) {
        ParamClass::Passthrough
    } else {
        classify_dependency(p)
    }
}

/// The classes of the first `n` parameters.
pub open spec fn classes(inputs: Seq<ParamView>, names: Seq<Seq<char>>, n: int) -> Seq<
    ParamClass,
> {
    Seq::new(n as nat, |i: int| classify(inputs[i], names))
}

/// The path bindings among the classes, in order.
pub open spec fn path_bindings(cs: Seq<ParamClass>) -> Seq<PathBindingView>
    decreases cs.len(),
{
    if cs.len() == 0 {
        Seq::empty()
    } else {
        match cs.last() {
            ParamClass::Path(b) => path_bindings(cs.drop_last()).push(b),
            _ => path_bindings(cs.drop_last()),
        }
    }
}

/// The query fields among the classes, in order.
pub open spec fn all_query_fields(cs: Seq<ParamClass>) -> Seq<QueryFieldView>
    decreases cs.len(),
{
    if cs.len() == 0 {
        Seq::empty()
    } else {
        match cs.last() {
            ParamClass::Query(fields) => all_query_fields(cs.drop_last()) + fields,
            _ => all_query_fields(cs.drop_last()),
        }
    }
}

/// The dependencies among the classes, in order.
pub open spec fn injections(cs: Seq<ParamClass>) -> Seq<InjectionView>
    decreases cs.len(),
{
    if cs.len() == 0 {
        Seq::empty()
    } else {
        match cs.last() {
            ParamClass::Inject(i) => injections(cs.drop_last()).push(i),
            _ => injections(cs.drop_last()),
        }
    }
}

/// The body extractors and the parameters passed through, in order; a
/// parameter passed through is named by its position.
pub open spec fn plain_extractors(cs: Seq<ParamClass>) -> Seq<ExtractorView>
    decreases cs.len(),
{
    if cs.len() == 0 {
        Seq::empty()
    } else {
        match cs.last() {
            ParamClass::Body(x) => plain_extractors(cs.drop_last()).push(x),
            ParamClass::Passthrough => plain_extractors(cs.drop_last()).push(
                ExtractorView::Passthrough { index: cs.len() - 1 },
            ),
            _ => plain_extractors(cs.drop_last()),
        }
    }
}

/// The error of the first rejected parameter, if any is rejected.
pub open spec fn first_error(cs: Seq<ParamClass>) -> Option<DeclError>
    decreases cs.len(),
{
    if cs.len() == 0 {
        None
    } else {
        match first_error(cs.drop_last()) {
            Some(e) => Some(e),
            None => match cs.last() {
                ParamClass::Invalid(e) => Some(e),
                _ => None,
            },
        }
    }
}

/// The plan that the classes give, with the query structure under the given
/// name. A handler with a query parameter has one query structure, which
/// holds the fields of all its query parameters and comes first among the
/// extractors; a handler without one has none.
pub open spec fn plan_of(cs: Seq<ParamClass>, struct_name: Seq<char>) -> HandlerPlanView {
    if query_count(cs) > 0 {
        HandlerPlanView {
            path_args: path_bindings(cs),
            extractors: seq![ExtractorView::Query] + plain_extractors(cs),
            query_struct: Some(
                QueryStructView { name: struct_name, fields: all_query_fields(cs) },
            ),
            injections: injections(cs),
        }
    } else {
        HandlerPlanView {
            path_args: path_bindings(cs),
            extractors: plain_extractors(cs),
            query_struct: None,
            injections: injections(cs),
        }
    }
}

/// What classifying a handler's parameters gives: the plan, or the error of
/// the first parameter that is rejected.
pub open spec fn classified(
    inputs: Seq<ParamView>,
    names: Seq<Seq<char>>,
    struct_name: Seq<char>,
) -> Result<HandlerPlanView, DeclError> {
    let cs = classes(inputs, names, inputs.len() as int);
    match first_error(cs) {
        Some(e) => Err(e),
        None => Ok(plan_of(cs, struct_name)),
    }
}

/// How many of the classes are query parameters.
pub open spec fn query_count(cs: Seq<ParamClass>) -> nat
    decreases cs.len(),
{
    if cs.len() == 0 {
        0
    } else if cs.last() is Query {
        query_count(cs.drop_last()) + 1
    } else {
        query_count(cs.drop_last())
    }
}

/// No parameter is left out: where none is rejected, every parameter is a
/// path binding, a dependency, a body extractor or a parameter passed
/// through, or one of the query parameters; and the plan has path bindings
/// exactly where some parameter is bound from the path.
pub proof fn lemma_no_parameter_is_left_out(cs: Seq<ParamClass>)
    requires
        first_error(cs) is None,
    ensures
        path_bindings(cs).len() + injections(cs).len() + plain_extractors(cs).len() + query_count(
            cs,
        ) == cs.len(),
        path_bindings(cs).len() > 0 <==> exists|i: int| 0 <= i < cs.len() && (#[trigger] cs[i]) is Path,
    decreases cs.len(),
{
    if cs.len() > 0 {
        let init = cs.drop_last();
        lemma_no_parameter_is_left_out(init);
        if exists|i: int| 0 <= i < init.len() && (#[trigger] init[i]) is Path {
            let i = choose|i: int| 0 <= i < init.len() && (#[trigger] init[i]) is Path;
            assert(cs[i] is Path);
        }
        if cs.last() is Path {
            assert(cs[cs.len() - 1] is Path);
        }
        if exists|i: int| 0 <= i < cs.len() && (#[trigger] cs[i]) is Path {
            let i = choose|i: int| 0 <= i < cs.len() && (#[trigger] cs[i]) is Path;
            if i < init.len() {
                assert(init[i] is Path);
            }
        }
    }
}

/// An error among the first parameters is the error of the whole list.
pub proof fn lemma_first_error_stays(cs: Seq<ParamClass>, n: int)
    requires
        0 <= n <= cs.len(),
        first_error(cs.take(n)) is Some,
    ensures
        first_error(cs) == first_error(cs.take(n)),
    decreases cs.len() - n,
{
    if n == cs.len() {
        assert(cs.take(n) =~= cs);
    } else {
        assert(cs.drop_last().take(n) =~= cs.take(n));
        lemma_first_error_stays(cs.drop_last(), n);
    }
}

/// A handler with a query-marked identifier and a query-marked tuple has
/// one query structure: its fields are the identifier's field and then the
/// tuple's fields, a field is optional exactly where its type is an `Option`,
/// and the structure is the handler's only extractor.
pub proof fn lemma_query_structure_is_union(
    a: ParamView,
    b: ParamView,
    names: Seq<Seq<char>>,
    struct_name: Seq<char>,
)
    requires
        has_attr(a.attrs, "q"@),
        has_attr(b.attrs, "q"@),
        a.pattern is Ident,
        b.pattern is Tuple,
        b.shape is Tuple,
        b.pattern->Tuple_0.len() == b.shape->Tuple_0.len(),
        forall|i: int| 0 <= i < b.pattern->Tuple_0.len() ==> (#[trigger] b.pattern->Tuple_0[i]) is Some,
    ensures
        classified(seq![a, b], names, struct_name) == Ok::<HandlerPlanView, DeclError>(
            HandlerPlanView {
                path_args: Seq::empty(),
                extractors: seq![ExtractorView::Query],
                query_struct: Some(
                    QueryStructView {
                        name: struct_name,
                        fields: seq![field_of(a.pattern->Ident_0, a.ty, path_of_shape(a.shape))]
                            + tuple_fields(b.pattern->Tuple_0, b.shape->Tuple_0),
                    },
                ),
                injections: Seq::empty(),
            },
        ),
{
    let inputs = seq![a, b];
    let cs = classes(inputs, names, 2);
    let fa = seq![field_of(a.pattern->Ident_0, a.ty, path_of_shape(a.shape))];
    let fb = tuple_fields(b.pattern->Tuple_0, b.shape->Tuple_0);
    assert(cs[0] == classify(a, names));
    assert(cs[1] == classify(b, names));
    assert(cs[0] == ParamClass::Query(fa));
    assert(cs[1] == ParamClass::Query(fb));
    let c1 = cs.drop_last();
    let c0 = c1.drop_last();
    assert(c1.len() == 1 && c0.len() == 0);
    assert(c1.last() == cs[0]);
    assert(cs.last() == cs[1]);
    assert(all_query_fields(c0) == Seq::<QueryFieldView>::empty());
    assert(all_query_fields(c1) =~= fa);
    assert(all_query_fields(cs) =~= fa + fb);
    assert(path_bindings(c0) == Seq::<PathBindingView>::empty());
    assert(path_bindings(c1) == path_bindings(c0));
    assert(path_bindings(cs) =~= Seq::<PathBindingView>::empty());
    assert(injections(c0) == Seq::<InjectionView>::empty());
    assert(injections(c1) == injections(c0));
    assert(injections(cs) =~= Seq::<InjectionView>::empty());
    assert(plain_extractors(c0) == Seq::<ExtractorView>::empty());
    assert(plain_extractors(c1) == plain_extractors(c0));
    assert(plain_extractors(cs) =~= Seq::<ExtractorView>::empty());
    assert(first_error(c0) is None);
    assert(first_error(c1) is None);
    assert(first_error(cs) is None);
    assert(query_count(c0) == 0);
    assert(query_count(c1) == 1);
    assert(query_count(cs) == 2);
    assert(seq![ExtractorView::Query] + plain_extractors(cs) =~= seq![ExtractorView::Query]);
}

/// Whether one of the attributes has the given name.
pub fn has_attribute(attrs: &Vec<ParamAttr>, name: &str) -> (found: bool)
    ensures
        found == has_attr(attrs.deep_view(), name@),
{
    let mut i: usize = 0;
    while i < attrs.len()
        invariant
            i <= attrs.len(),
            forall|j: int| 0 <= j < i ==> (#[trigger] attrs.deep_view()[j]).name != name@,
        decreases attrs.len() - i,
    {
        if str_eq(attrs[i].name.as_str(), name) {
            proof {
                assert(attrs.deep_view()[i as int].name == name@);
            }
            return true;
        }
        i += 1;
    }
    false
}

/// Whether the list holds the given name.
pub fn contains_name(names: &Vec<String>, name: &str) -> (found: bool)
    ensures
        found == names.deep_view().contains(name@),
{
    let mut i: usize = 0;
    while i < names.len()
        invariant
            i <= names.len(),
            forall|j: int| 0 <= j < i ==> #[trigger] names.deep_view()[j] != name@,
        decreases names.len() - i,
    {
        if str_eq(names[i].as_str(), name) {
            proof {
                assert(names.deep_view()[i as int] == name@);
            }
            return true;
        }
        i += 1;
    }
    false
}

/// Whether a type name is one that the HTTP layer extracts by itself.
pub fn is_native_type(name: &str) -> (native: bool)
    ensures
        native == is_native(name@),
{
    str_eq(name, "Method") || str_eq(name, "Uri") || str_eq(name, "Version") || str_eq(
        name,
        "HeaderMap",
    ) || str_eq(name, "String") || str_eq(name, "Bytes") || str_eq(name, "Body") || str_eq(
        name,
        "OriginalUri",
    ) || str_eq(name, "MatchedPath") || str_eq(name, "RawQuery") || str_eq(name, "Value")
}

/// The type inside `Option<..>`, where the path is one.
pub fn extract_inner_option(path: &Option<PathType>) -> (inner: Option<String>)
    ensures
        inner.deep_view() == option_inner(path.deep_view()),
{
    match path {
        Some(p) => {
            if str_eq(p.last_segment.as_str(), "Option") {
                match &p.first_argument {
                    Some(t) => Some(t.clone()),
                    None => None,
                }
            } else {
                None
            }
        },
        None => None,
    }
}

/// The query field for a name and a type.
pub fn make_field(name: &String, text: &String, path: &Option<PathType>) -> (field: QueryField)
    ensures
        field.deep_view() == field_of(name@, text@, path.deep_view()),
{
    match extract_inner_option(path) {
        Some(inner) => QueryField { name: name.clone(), ty: inner, optional: true },
        None => QueryField { name: name.clone(), ty: text.clone(), optional: false },
    }
}

/// The encoding that an option of the body marker selects.
pub fn body_mode(option: &str) -> (mode: Option<BodyType>)
    ensures
        mode == mode_of_option(option@),
{
    if str_eq(option, "json") {
        Some(BodyType::Json)
    } else if str_eq(option, "form") {
        Some(BodyType::Form)
    } else if str_eq(option, "multipart") {
        Some(BodyType::Multipart)
    } else {
        None
    }
}

/// Adds the fields of a query-marked parameter to `q_fields`, or rejects the
/// parameter and leaves `q_fields` as it was.
pub fn handle_q_attr(param: &Param, q_fields: &mut Vec<QueryField>) -> (res: Result<
    (),
    DeclError,
>)
    ensures
        match query_fields(param.deep_view()) {
            Ok(fields) => res is Ok && final(q_fields).deep_view() == old(q_fields).deep_view()
                + fields,
            Err(e) => res == Err::<(), DeclError>(e) && final(q_fields).deep_view() == old(
                q_fields,
            ).deep_view(),
        },
{
    let ghost before = q_fields.deep_view();
    match &param.pattern {
        ParamPattern::Ident(name) => {
            let path = match &param.shape {
                TypeShape::Path(p) => Some(
                    PathType {
                        last_segment: p.last_segment.clone(),
                        first_argument: p.first_argument.clone(),
                    },
                ),
                _ => None,
            };
            let field = make_field(name, &param.ty, &path);
            q_fields.push(field);
            proof {
                assert(q_fields.deep_view() =~= before + seq![field.deep_view()]);
            }
            Ok(())
        },
        ParamPattern::Tuple(parts) => {
            match &param.shape {
                TypeShape::Tuple(elems) => {
                    if parts.len() != elems.len() {
                        return Err(DeclError::QueryTupleShape);
                    }
                    let mut k: usize = 0;
                    while k < parts.len()
                        invariant
                            k <= parts.len(),
                            parts.len() == elems.len(),
                            param.deep_view().pattern == ParamPatternView::Tuple(
                                parts.deep_view(),
                            ),
                            param.deep_view().shape == TypeShapeView::Tuple(elems.deep_view()),
                            q_fields.deep_view() == before,
                            forall|j: int| 0 <= j < k ==> (#[trigger] parts.deep_view()[j]) is Some,
                        decreases parts.len() - k,
                    {
                        if parts[k].is_none() {
                            proof {
                                assert(parts.deep_view()[k as int] is None);
                            }
                            return Err(DeclError::QueryTupleElement);
                        }
                        k += 1;
                    }
                    let ghost fields = tuple_fields(parts.deep_view(), elems.deep_view());
                    let mut i: usize = 0;
                    while i < parts.len()
                        invariant
                            i <= parts.len(),
                            parts.len() == elems.len(),
                            forall|j: int|
                                0 <= j < parts.len() ==> (#[trigger] parts.deep_view()[j]) is Some,
                            fields == tuple_fields(parts.deep_view(), elems.deep_view()),
                            q_fields.deep_view() == before + fields.take(i as int),
                        decreases parts.len() - i,
                    {
                        let ghost so_far = q_fields.deep_view();
                        proof {
                            assert(parts.deep_view()[i as int] is Some);
                        }
                        match &parts[i] {
                            Some(name) => {
                                let field = make_field(name, &elems[i].text, &elems[i].path);
                                q_fields.push(field);
                                proof {
                                    assert(field.deep_view() == fields[i as int]);
                                    assert(q_fields.deep_view() =~= so_far.push(
                                        field.deep_view(),
                                    ));
                                    assert(fields.take(i + 1) =~= fields.take(i as int).push(
                                        fields[i as int],
                                    ));
                                    assert(before + fields.take(i + 1) =~= (before + fields.take(
                                        i as int,
                                    )).push(fields[i as int]));
                                }
                            },
                            None => {},
                        }
                        i += 1;
                    }
                    proof {
                        assert(fields.take(i as int) =~= fields);
                    }
                    Ok(())
                },
                _ => Err(DeclError::QueryTupleType),
            }
        },
        ParamPattern::Other => Err(DeclError::QueryPattern),
    }
}

/// The options of all body markers, in order.
pub fn collect_body_options(attrs: &Vec<ParamAttr>) -> (options: Vec<String>)
    ensures
        options.deep_view() == body_options(attrs.deep_view()),
{
    let mut options: Vec<String> = Vec::new();
    let mut i: usize = 0;
    while i < attrs.len()
        invariant
            i <= attrs.len(),
            options.deep_view() == body_options(attrs.deep_view().take(i as int)),
        decreases attrs.len() - i,
    {
        let ghost done = options.deep_view();
        proof {
            let next = attrs.deep_view().take(i + 1);
            assert(next.drop_last() =~= attrs.deep_view().take(i as int));
            assert(next.last() == attrs.deep_view()[i as int]);
        }
        if str_eq(attrs[i].name.as_str(), "b") {
            let own = &attrs[i].options;
            let mut j: usize = 0;
            while j < own.len()
                invariant
                    j <= own.len(),
                    options.deep_view() == done + own.deep_view().take(j as int),
                decreases own.len() - j,
            {
                let ghost so_far = options.deep_view();
                let option = own[j].clone();
                options.push(option);
                proof {
                    assert(options.deep_view() =~= so_far.push(option@));
                    assert(own.deep_view().take(j + 1) =~= own.deep_view().take(j as int).push(
                        option@,
                    ));
                    assert(done + own.deep_view().take(j + 1) =~= (done + own.deep_view().take(
                        j as int,
                    )).push(option@));
                }
                j += 1;
            }
            proof {
                assert(own.deep_view().take(j as int) =~= own.deep_view());
            }
        }
        i += 1;
    }
    proof {
        assert(attrs.deep_view().take(i as int) =~= attrs.deep_view());
    }
    options
}

/// The encoding that the body markers of a parameter select.
pub fn select_body_mode(attrs: &Vec<ParamAttr>) -> (res: Result<BodyType, DeclError>)
    ensures
        res == mode_of_options(body_options(attrs.deep_view())),
{
    let options = collect_body_options(attrs);
    let mut mode = BodyType::Json;
    let mut i: usize = 0;
    while i < options.len()
        invariant
            i <= options.len(),
            options.deep_view() == body_options(attrs.deep_view()),
            forall|j: int| 0 <= j < i ==> mode_of_option(#[trigger] options.deep_view()[j]) is Some,
            i == 0 ==> mode == BodyType::Json,
            i > 0 ==> mode_of_option(options.deep_view()[i - 1]) == Some(mode),
        decreases options.len() - i,
    {
        match body_mode(options[i].as_str()) {
            Some(m) => {
                mode = m;
            },
            None => {
                proof {
                    assert(mode_of_option(options.deep_view()[i as int]) is None);
                }
                return Err(DeclError::BodyOption);
            },
        }
        i += 1;
    }
    Ok(mode)
}

/// Adds the extractor of a body-marked parameter to `other_inputs`, or
/// rejects the parameter and leaves `other_inputs` as it was.
pub fn handle_b_attr(param: &Param, other_inputs: &mut Vec<Extractor>) -> (res: Result<
    (),
    DeclError,
>)
    ensures
        match body_extractor(param.deep_view()) {
            Ok(x) => res is Ok && final(other_inputs).deep_view() == old(
                other_inputs,
            ).deep_view().push(x),
            Err(e) => res == Err::<(), DeclError>(e) && final(other_inputs).deep_view() == old(
                other_inputs,
            ).deep_view(),
        },
{
    let ghost before = other_inputs.deep_view();
    let mode = match select_body_mode(&param.attrs) {
        Ok(mode) => mode,
        Err(e) => {
            return Err(e);
        },
    };
    match &param.pattern {
        ParamPattern::Ident(name) => {
            let inner = match &param.shape {
                TypeShape::Path(p) => {
                    if str_eq(p.last_segment.as_str(), "Option") {
                        p.first_argument.clone()
                    } else {
                        None
                    }
                },
                _ => None,
            };
            let x = match inner {
                Some(ty) => Extractor::Body { mode, name: name.clone(), ty, optional: true },
                None => Extractor::Body {
                    mode,
                    name: name.clone(),
                    ty: param.ty.clone(),
                    optional: false,
                },
            };
            other_inputs.push(x);
            proof {
                assert(other_inputs.deep_view() =~= before.push(x.deep_view()));
            }
            Ok(())
        },
        _ => Err(DeclError::BodyPattern),
    }
}

/// Adds the lookup of a dependency by the parameter's type to
/// `inject_segs`, or rejects the parameter and leaves `inject_segs` as it was.
pub fn handle_dep_attr(param: &Param, inject_segs: &mut Vec<Injection>) -> (res: Result<
    (),
    DeclError,
>)
    ensures
        match injection(param.deep_view(), LookupView::ByType(param.ty@)) {
            Ok(i) => res is Ok && final(inject_segs).deep_view() == old(
                inject_segs,
            ).deep_view().push(i),
            Err(e) => res == Err::<(), DeclError>(e) && final(inject_segs).deep_view() == old(
                inject_segs,
            ).deep_view(),
        },
{
    let ghost before = inject_segs.deep_view();
    match &param.pattern {
        ParamPattern::Ident(name) => {
            let i = Injection { name: name.clone(), lookup: Lookup::ByType(param.ty.clone()) };
            inject_segs.push(i);
            proof {
                assert(inject_segs.deep_view() =~= before.push(i.deep_view()));
            }
            Ok(())
        },
        _ => Err(DeclError::DependencyPattern),
    }
}

/// Adds the lookup of a dependency by the named trait to `inject_segs`, or
/// rejects the parameter and leaves `inject_segs` as it was.
pub fn handle_trait_dep_attr(
    param: &Param,
    trait_ident: &str,
    inject_segs: &mut Vec<Injection>,
) -> (res: Result<(), DeclError>)
    ensures
        match injection(param.deep_view(), LookupView::ByTrait(trait_ident@)) {
            Ok(i) => res is Ok && final(inject_segs).deep_view() == old(
                inject_segs,
            ).deep_view().push(i),
            Err(e) => res == Err::<(), DeclError>(e) && final(inject_segs).deep_view() == old(
                inject_segs,
            ).deep_view(),
        },
{
    let ghost before = inject_segs.deep_view();
    match &param.pattern {
        ParamPattern::Ident(name) => {
            let i = Injection {
                name: name.clone(),
                lookup: Lookup::ByTrait(trait_ident.to_owned()),
            };
            inject_segs.push(i);
            proof {
                assert(inject_segs.deep_view() =~= before.push(i.deep_view()));
            }
            Ok(())
        },
        _ => Err(DeclError::DependencyPattern),
    }
}

/// Classifies the parameters of a handler, given the names that its path
/// declares and the name of its query structure.
pub fn classify_inputs(inputs: &Vec<Param>, names: &Vec<String>, struct_name: String) -> (res:
    Result<HandlerPlan, DeclError>)
    ensures
        match classified(inputs.deep_view(), names.deep_view(), struct_name@) {
            Ok(plan) => res is Ok && res->Ok_0.deep_view() == plan,
            Err(e) => res is Err && res->Err_0 == e,
        },
{
    let mut path_args: Vec<PathBinding> = Vec::new();
    let mut other_inputs: Vec<Extractor> = Vec::new();
    let mut q_fields: Vec<QueryField> = Vec::new();
    let mut inject_segs: Vec<Injection> = Vec::new();
    let mut has_query = false;
    let ghost all = classes(inputs.deep_view(), names.deep_view(), inputs.len() as int);
    let mut i: usize = 0;
    while i < inputs.len()
        invariant
            i <= inputs.len(),
            has_query == (query_count(all.take(i as int)) > 0),
            all == classes(inputs.deep_view(), names.deep_view(), inputs.len() as int),
            first_error(all.take(i as int)) is None,
            path_args.deep_view() == path_bindings(all.take(i as int)),
            other_inputs.deep_view() == plain_extractors(all.take(i as int)),
            q_fields.deep_view() == all_query_fields(all.take(i as int)),
            inject_segs.deep_view() == injections(all.take(i as int)),
        decreases inputs.len() - i,
    {
        let param = &inputs[i];
        let ghost cs = all.take(i + 1);
        proof {
            assert(cs.drop_last() =~= all.take(i as int));
            assert(cs.last() == classify(param.deep_view(), names.deep_view()));
            assert(cs.len() == i + 1);
        }
        let is_path = match &param.pattern {
            ParamPattern::Ident(name) => contains_name(names, name.as_str()),
            _ => false,
        };
        let is_native = match &param.shape {
            TypeShape::Path(p) => is_native_type(p.last_segment.as_str()),
            _ => false,
        };
        let step = if has_attribute(&param.attrs, "q") {
            let res = handle_q_attr(param, &mut q_fields);
            if res.is_ok() {
                has_query = true;
            }
            res
        } else if has_attribute(&param.attrs, "b") {
            handle_b_attr(param, &mut other_inputs)
        } else if is_path {
            let ghost before = path_args.deep_view();
            let name = match &param.pattern {
                ParamPattern::Ident(name) => name.clone(),
                _ => String::new(),
            };
            let b = PathBinding { name, ty: param.ty.clone() };
            path_args.push(b);
            proof {
                assert(path_args.deep_view() =~= before.push(b.deep_view()));
            }
            Ok(())
        } else if is_native {
            let ghost before = other_inputs.deep_view();
            let x = Extractor::Passthrough { index: i };
            other_inputs.push(x);
            proof {
                assert(other_inputs.deep_view() =~= before.push(x.deep_view()));
            }
            Ok(())
        } else {
            match &param.shape {
                TypeShape::TraitObject(Some(name)) => handle_trait_dep_attr(
                    param,
                    name.as_str(),
                    &mut inject_segs,
                ),
                TypeShape::TraitObject(None) => Err(DeclError::DependencyTrait),
                _ => match &param.pattern {
                    ParamPattern::Ident(_) => handle_dep_attr(param, &mut inject_segs),
                    _ => {
                        let ghost before = other_inputs.deep_view();
                        let x = Extractor::Passthrough { index: i };
                        other_inputs.push(x);
                        proof {
                            assert(other_inputs.deep_view() =~= before.push(x.deep_view()));
                        }
                        Ok(())
                    },
                },
            }
        };
        match step {
            Ok(()) => {},
            Err(e) => {
                proof {
                    assert(first_error(cs) == Some(e));
                    lemma_first_error_stays(all, i + 1);
                }
                return Err(e);
            },
        }
        i += 1;
    }
    proof {
        assert(all.take(i as int) =~= all);
    }
    if has_query {
        other_inputs.insert(0, Extractor::Query);
        proof {
            assert(other_inputs.deep_view() =~= seq![ExtractorView::Query] + plain_extractors(
                all,
            ));
        }
        Ok(
            HandlerPlan {
                path_args,
                extractors: other_inputs,
                query_struct: Some(QueryStruct { name: struct_name, fields: q_fields }),
                injections: inject_segs,
            },
        )
    } else {
        Ok(
            HandlerPlan {
                path_args,
                extractors: other_inputs,
                query_struct: None,
                injections: inject_segs,
            },
        )
    }
}

/// What `convert_case` makes of a text in Pascal case.
pub uninterp spec fn pascal_case(text: Seq<char>) -> Seq<char>;

/// The name of the query structure of the handler `fn_name`.
pub open spec fn query_struct_name(fn_name: Seq<char>) -> Seq<char> {
    pascal_case(fn_name) + "Query"@
}

/// Calls `convert_case`'s `Casing::to_case` with `Case::Pascal`. The result is
/// only named: it depends on the text alone.
#[verifier::external_body]
pub(crate) fn to_pascal(text: &str) -> (converted: String)
    ensures
        converted@ == pascal_case(text@),
{
    text.to_case(Case::Pascal)
}

/// Classifies the parameters of the handler `fn_name`, whose route has the
/// canonical pattern `path`.
pub fn process_inputs(inputs: &Vec<Param>, path: &str, fn_name: &str) -> (res: Result<
    HandlerPlan,
    DeclError,
>)
    ensures
        match classified(inputs.deep_view(), params(path@), query_struct_name(fn_name@)) {
            Ok(plan) => res is Ok && res->Ok_0.deep_view() == plan,
            Err(e) => res is Err && res->Err_0 == e,
        },
{
    let names = extract_params(path);
    let mut struct_name = to_pascal(fn_name);
    struct_name.append("Query");
    classify_inputs(inputs, &names, struct_name)
}

} // verus!
