//! The ways in which an evaluation can fail.

use vstd::prelude::*;

verus! {

/// A value was asked for in a shape that it does not have. The caller may go on.
#[derive(Clone, Copy, Debug, PartialEq, Eq, Structural)]
pub struct ConversionError;

/// A defect in what an earlier phase handed to the evaluator. Each variant names
/// the element or the operator at which the evaluation stopped.
#[derive(Clone, Copy, Debug, PartialEq, Eq, Structural)]
pub enum EvalError {
    /// The expression is the placeholder of a failed compilation.
    InvalidExpression,
    /// The expression was never compiled.
    UncompiledExpression,
    /// A signal stands where a value is needed.
    SignalInExpression,
    /// The element tree has no such element, or not its component or that component's root.
    UnresolvedElement { element: usize },
    /// No context of the chain is an instance of the component that declares the element.
    NoEnclosingComponent { element: usize },
    /// A context names an instance that the store does not hold, or one of an unknown type.
    UnknownInstance { component: usize },
    /// The component has no item for the element.
    UnknownItem { element: usize },
    /// Neither the component nor the item has a property of that name.
    UnknownProperty { element: usize },
    /// Neither the item nor the component has a signal of that name.
    UnknownSignal { element: usize },
    /// The property lies outside the storage of the instance.
    InvalidOffset { element: usize },
    /// The property does not take values of that kind.
    IncompatibleValue { element: usize },
    /// A repeater reference to an element that the evaluated component is not built from.
    UnsupportedRepeaterReference { element: usize },
    /// The operator is not defined on these operands.
    UnsupportedOperation { op: char },
    /// Something that is no signal was called.
    NotASignal,
    /// Something that is no property was assigned to.
    NotAProperty,
    /// The condition is no truth value.
    ConditionNotBoolean,
    /// A path segment of an unknown kind.
    UnsupportedPathElement,
    /// A field of a path segment does not take values of that kind.
    IncompatibleField,
}

} // verus!
