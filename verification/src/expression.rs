//! The expression tree that the evaluator walks.

use crate::number::Number;
use vstd::prelude::*;

verus! {

/// The types of the language, as far as the evaluator tells them apart.
#[derive(Clone, Copy, Debug, PartialEq, Eq, Structural)]
pub enum Type {
    Invalid,
    /// The component with this index in the element tree.
    Component(usize),
    Builtin,
    Signal,
    Float32,
    Int32,
    String,
    Color,
    Resource,
    Bool,
    Array,
    Object,
    PathElements,
}

/// A property or a signal of an element: the element's index in the element
/// tree, and the name.
#[derive(Clone, Debug)]
pub struct NamedReference {
    pub element: usize,
    pub name: String,
}

/// The description of one segment of a path: the name of its kind, and an
/// expression for each field that is given.
#[derive(Debug)]
pub struct ExprPathElement {
    pub class_name: String,
    pub bindings: Vec<(String, Expression)>,
}

/// An expression.
#[derive(Debug)]
#[allow(inconsistent_fields)]
pub enum Expression {
    /// The placeholder of a failed compilation.
    Invalid,
    /// An expression that was never compiled.
    Uncompiled,
    StringLiteral(String),
    NumberLiteral(Number),
    BoolLiteral(bool),
    /// A signal, as the target of a call.
    SignalReference(NamedReference),
    /// The current value of a property.
    PropertyReference(NamedReference),
    /// The index of the current instance within its repeater.
    RepeaterIndexReference { element: usize },
    /// The model data of the current instance within its repeater.
    RepeaterModelReference { element: usize },
    /// A field of an object.
    ObjectAccess { base: Box<Expression>, name: String },
    /// A conversion to another type.
    Cast { from: Box<Expression>, to: Type },
    /// Expressions evaluated in order, for the value of the last.
    CodeBlock(Vec<Expression>),
    /// A call: of a signal, which emits it.
    FunctionCall { function: Box<Expression> },
    /// `lhs op= rhs`, with `op` one of `+ - * /`.
    SelfAssignment { lhs: Box<Expression>, rhs: Box<Expression>, op: char },
    /// `lhs op rhs`.
    BinaryExpression { lhs: Box<Expression>, rhs: Box<Expression>, op: char },
    /// `op sub`.
    UnaryOp { sub: Box<Expression>, op: char },
    /// The resource at a path.
    ResourceReference { absolute_source_path: String },
    /// `condition ? true_expr : false_expr`.
    Condition {
        condition: Box<Expression>,
        true_expr: Box<Expression>,
        false_expr: Box<Expression>,
    },
    /// An array, item by item.
    Array { element_ty: Type, values: Vec<Expression> },
    /// An object, field by field.
    Object { ty: Type, values: Vec<(String, Expression)> },
    /// A path, segment by segment.
    PathElements { elements: Vec<ExprPathElement> },
}

} // verus!
