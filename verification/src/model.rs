//! The diagram data model: classes with their fields and methods, and the
//! relationships between classes. Each type has a mathematical view over
//! which the contracts of the library are stated.

use vstd::prelude::*;

verus! {

/// What kind of type a diagram box stands for.
#[derive(Debug, Clone, Copy, PartialEq, Eq, Structural)]
pub enum ClassKind {
    Class,
    Interface,
    Enum,
    AbstractClass,
    Trait,
}

/// Member or type visibility as drawn in the diagram.
#[derive(Debug, Clone, Copy, PartialEq, Eq, Structural)]
pub enum Visibility {
    Public,
    Private,
    Protected,
}

/// A field (attribute, property, enum constant) of a class.
#[derive(Debug, Clone, PartialEq, Eq)]
pub struct FieldNode {
    pub name: String,
    pub type_text: String,
    pub visibility: Visibility,
    pub is_static: bool,
    /// One-based source line of the declaration.
    pub line: u32,
}

/// A method parameter.
#[derive(Debug, Clone, PartialEq, Eq)]
pub struct Param {
    pub name: String,
    pub type_text: String,
}

/// A method (or constructor) of a class.
#[derive(Debug, Clone, PartialEq, Eq)]
pub struct MethodNode {
    pub name: String,
    pub params: Vec<Param>,
    pub return_type: String,
    pub visibility: Visibility,
    pub is_static: bool,
    pub is_abstract: bool,
    /// One-based source line of the declaration.
    pub line: u32,
}

/// A class, interface, enum, abstract class or trait found in a source file.
#[derive(Debug, Clone, PartialEq, Eq)]
pub struct ClassNode {
    pub id: String,
    pub name: String,
    pub kind: ClassKind,
    pub file: String,
    /// One-based source line of the declaration.
    pub line: u32,
    pub fields: Vec<FieldNode>,
    pub methods: Vec<MethodNode>,
    pub extends: Vec<String>,
    pub implements: Vec<String>,
}

/// The UML relationship an edge of the diagram stands for.
#[derive(Debug, Clone, Copy, PartialEq, Eq, Hash, Structural)]
pub enum RelationshipKind {
    Inheritance,
    Implementation,
    Composition,
    Aggregation,
    Association,
    Dependency,
}

/// A directed edge between two classes, named by class name.
#[derive(Debug, Clone, PartialEq, Eq, Hash)]
pub struct Relationship {
    pub from: String,
    pub to: String,
    pub kind: RelationshipKind,
}

/// A whole diagram: the classes, the edges between them, and when it was
/// produced (milliseconds since the Unix epoch).
#[derive(Debug, Clone, PartialEq, Eq)]
pub struct ClassDiagram {
    pub classes: Vec<ClassNode>,
    pub relationships: Vec<Relationship>,
    pub generated_at_ms: u64,
}

/// Mathematical value of a [`FieldNode`].
pub struct FieldView {
    pub name: Seq<char>,
    pub type_text: Seq<char>,
    pub visibility: Visibility,
    pub is_static: bool,
    pub line: u32,
}

/// Mathematical value of a [`Param`].
pub struct ParamView {
    pub name: Seq<char>,
    pub type_text: Seq<char>,
}

/// Mathematical value of a [`MethodNode`].
pub struct MethodView {
    pub name: Seq<char>,
    pub params: Seq<ParamView>,
    pub return_type: Seq<char>,
    pub visibility: Visibility,
    pub is_static: bool,
    pub is_abstract: bool,
    pub line: u32,
}

/// Mathematical value of a [`ClassNode`].
pub struct ClassView {
    pub id: Seq<char>,
    pub name: Seq<char>,
    pub kind: ClassKind,
    pub file: Seq<char>,
    pub line: u32,
    pub fields: Seq<FieldView>,
    pub methods: Seq<MethodView>,
    pub extends: Seq<Seq<char>>,
    pub implements: Seq<Seq<char>>,
}

/// Mathematical value of a [`Relationship`].
pub struct RelationshipView {
    pub from: Seq<char>,
    pub to: Seq<char>,
    pub kind: RelationshipKind,
}

impl View for FieldNode {
    type V = FieldView;

    open spec fn view(&self) -> FieldView {
        FieldView {
            name: self.name@,
            type_text: self.type_text@,
            visibility: self.visibility,
            is_static: self.is_static,
            line: self.line,
        }
    }
}

impl DeepView for FieldNode {
    type V = FieldView;

    open spec fn deep_view(&self) -> FieldView {
        self@
    }
}

impl View for Param {
    type V = ParamView;

    open spec fn view(&self) -> ParamView {
        ParamView { name: self.name@, type_text: self.type_text@ }
    }
}

impl DeepView for Param {
    type V = ParamView;

    open spec fn deep_view(&self) -> ParamView {
        self@
    }
}

impl View for MethodNode {
    type V = MethodView;

    open spec fn view(&self) -> MethodView {
        MethodView {
            name: self.name@,
            params: self.params.deep_view(),
            return_type: self.return_type@,
            visibility: self.visibility,
            is_static: self.is_static,
            is_abstract: self.is_abstract,
            line: self.line,
        }
    }
}

impl DeepView for MethodNode {
    type V = MethodView;

    open spec fn deep_view(&self) -> MethodView {
        self@
    }
}

impl View for ClassNode {
    type V = ClassView;

    open spec fn view(&self) -> ClassView {
        ClassView {
            id: self.id@,
            name: self.name@,
            kind: self.kind,
            file: self.file@,
            line: self.line,
            fields: self.fields.deep_view(),
            methods: self.methods.deep_view(),
            extends: self.extends.deep_view(),
            implements: self.implements.deep_view(),
        }
    }
}

impl DeepView for ClassNode {
    type V = ClassView;

    open spec fn deep_view(&self) -> ClassView {
        self@
    }
}

impl View for Relationship {
    type V = RelationshipView;

    open spec fn view(&self) -> RelationshipView {
        RelationshipView { from: self.from@, to: self.to@, kind: self.kind }
    }
}

impl DeepView for Relationship {
    type V = RelationshipView;

    open spec fn deep_view(&self) -> RelationshipView {
        self@
    }
}

/// Whether every field of `fs` has the type text `type_text`, the
/// visibility `visibility` and the static flag `is_static`.
pub open spec fn fields_carry(
    fs: Seq<FieldView>,
    type_text: Seq<char>,
    visibility: Visibility,
    is_static: bool,
) -> bool {
    forall|i: int|
        0 <= i < fs.len() ==> {
            &&& (#[trigger] fs[i]).type_text == type_text
            &&& fs[i].visibility == visibility
            &&& fs[i].is_static == is_static
        }
}

} // verus!
