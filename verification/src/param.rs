//! A handler's declared parameters, as plain values.
//!
//! A declaration is read elsewhere; what the classifier needs of each
//! parameter is kept here: its attributes, how its pattern is written, and
//! the shape of its type.

use vstd::prelude::*;

verus! {

/// An attribute on a parameter: its name and the words in its parentheses.
#[derive(Debug, Clone, PartialEq, Eq)]
pub struct ParamAttr {
    pub name: String,
    pub options: Vec<String>,
}

pub struct ParamAttrView {
    pub name: Seq<char>,
    pub options: Seq<Seq<char>>,
}

impl DeepView for ParamAttr {
    type V = ParamAttrView;

    open spec fn deep_view(&self) -> ParamAttrView {
        ParamAttrView { name: self.name@, options: self.options.deep_view() }
    }
}

/// How a parameter's pattern is written.
#[derive(Debug, Clone, PartialEq, Eq)]
pub enum ParamPattern {
    /// A single identifier.
    Ident(String),
    /// A tuple; each part is its identifier, or `None` if it is no identifier.
    Tuple(Vec<Option<String>>),
    /// Any other pattern.
    Other,
}

pub enum ParamPatternView {
    Ident(Seq<char>),
    Tuple(Seq<Option<Seq<char>>>),
    Other,
}

impl DeepView for ParamPattern {
    type V = ParamPatternView;

    open spec fn deep_view(&self) -> ParamPatternView {
        match self {
            ParamPattern::Ident(name) => ParamPatternView::Ident(name@),
            ParamPattern::Tuple(parts) => ParamPatternView::Tuple(parts.deep_view()),
            ParamPattern::Other => ParamPatternView::Other,
        }
    }
}

/// What is read of a type that is a path: its last segment's name and, where
/// that segment has generic arguments of which the first is a type, that type.
#[derive(Debug, Clone, PartialEq, Eq)]
pub struct PathType {
    pub last_segment: String,
    pub first_argument: Option<String>,
}

pub struct PathTypeView {
    pub last_segment: Seq<char>,
    pub first_argument: Option<Seq<char>>,
}

impl DeepView for PathType {
    type V = PathTypeView;

    open spec fn deep_view(&self) -> PathTypeView {
        PathTypeView {
            last_segment: self.last_segment@,
            first_argument: self.first_argument.deep_view(),
        }
    }
}

/// A type inside a tuple type: its text and, if it is a path, what is read
/// of the path.
#[derive(Debug, Clone, PartialEq, Eq)]
pub struct ElementType {
    pub text: String,
    pub path: Option<PathType>,
}

pub struct ElementTypeView {
    pub text: Seq<char>,
    pub path: Option<PathTypeView>,
}

impl DeepView for ElementType {
    type V = ElementTypeView;

    open spec fn deep_view(&self) -> ElementTypeView {
        ElementTypeView { text: self.text@, path: self.path.deep_view() }
    }
}

/// The shape of a parameter's type.
#[derive(Debug, Clone, PartialEq, Eq)]
pub enum TypeShape {
    /// A path such as `String` or `Option<u32>`.
    Path(PathType),
    /// A trait object; holds the name of its last bound if that is a trait.
    TraitObject(Option<String>),
    /// A tuple of types.
    Tuple(Vec<ElementType>),
    /// Any other type.
    Other,
}

pub enum TypeShapeView {
    Path(PathTypeView),
    TraitObject(Option<Seq<char>>),
    Tuple(Seq<ElementTypeView>),
    Other,
}

impl DeepView for TypeShape {
    type V = TypeShapeView;

    open spec fn deep_view(&self) -> TypeShapeView {
        match self {
            TypeShape::Path(p) => TypeShapeView::Path(p.deep_view()),
            TypeShape::TraitObject(t) => TypeShapeView::TraitObject(t.deep_view()),
            TypeShape::Tuple(elems) => TypeShapeView::Tuple(elems.deep_view()),
            TypeShape::Other => TypeShapeView::Other,
        }
    }
}

/// One typed parameter of a handler.
#[derive(Debug, Clone, PartialEq, Eq)]
pub struct Param {
    pub attrs: Vec<ParamAttr>,
    pub pattern: ParamPattern,
    /// The type as it is written.
    pub ty: String,
    pub shape: TypeShape,
}

pub struct ParamView {
    pub attrs: Seq<ParamAttrView>,
    pub pattern: ParamPatternView,
    pub ty: Seq<char>,
    pub shape: TypeShapeView,
}

impl DeepView for Param {
    type V = ParamView;

    open spec fn deep_view(&self) -> ParamView {
        ParamView {
            attrs: self.attrs.deep_view(),
            pattern: self.pattern.deep_view(),
            ty: self.ty@,
            shape: self.shape.deep_view(),
        }
    }
}

} // verus!
