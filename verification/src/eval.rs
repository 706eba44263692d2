//! The evaluator.

use crate::component::{
    ComponentDescription, Document, ElementTree, EvaluationContext, InstanceStore, PropertyInfo,
    SignalEmission, WriteError,
};
use crate::error::EvalError;
use crate::expression::{ExprPathElement, Expression, NamedReference, Type};
use crate::semantics::{
    apply_assignment, apply_binary, apply_unary, build_spec, cast, convert_path_element_spec,
    emit_signal, enclosing_component, eval_fields_spec, eval_list_spec, eval_path_spec, eval_spec,
    field_access, lemma_build_failure_persists, lemma_fields_failure_persists,
    lemma_list_failure_persists, lemma_path_failure_persists, located_property, property_location,
    read_property, read_repeater_property, signal_location,
};
use crate::shape::{shape_fields, ShapeKind};
use crate::table::find_entry;
use crate::value::{
    fields_view, find_field, items_view, lemma_fields_view_congruent, Color, PathElement, Resource,
    Value, ValueView,
};
use vstd::prelude::*;

verus! {

impl ElementTree {
    /// Whether the tree holds the element, the component that declares it, and
    /// that component's root element.
    pub fn resolves_element(&self, element: usize) -> (r: bool)
        ensures
            r == self.resolves(element),
    {
        if element >= self.elements.len() {
            return false;
        }
        let component = self.elements[element].enclosing_component;
        component < self.components.len() && self.components[component].root_element
            < self.elements.len()
    }

    /// Whether the element resolves, and bears the id of the root element of
    /// the component that declares it.
    pub fn is_root_element(&self, element: usize) -> (r: bool)
        ensures
            r == self.is_root(element),
    {
        if !self.resolves_element(element) {
            return false;
        }
        let declared = &self.elements[element];
        let component = &self.components[declared.enclosing_component];
        self.elements[component.root_element].id == declared.id
    }
}

/// Whether a result of the evaluator is the one that the semantics gives.
pub open spec fn agrees(r: Result<Value, EvalError>, expected: Result<ValueView, EvalError>) -> bool {
    match r {
        Ok(v) => expected == Ok::<ValueView, EvalError>(v@),
        Err(e) => expected == Err::<ValueView, EvalError>(e),
    }
}

/// Finds the instance that owns an element: the first context of the chain,
/// from `eval_context` outwards, whose instance is of the type built from the
/// component that declares the element. Returns the index of that instance in
/// the store, its type, and that context. The walk is a loop over the chain,
/// so a long chain costs time and no stack.
pub fn enclosing_component_for_element<'a>(
    element: usize,
    eval_context: &'a EvaluationContext,
    document: &'a Document,
    store: &InstanceStore,
) -> (r: Result<(usize, &'a ComponentDescription, &'a EvaluationContext), EvalError>)
    ensures
        match r {
            Ok((instance, ty, ctx)) => enclosing_component(
                *document,
                store@,
                element,
                *eval_context,
            ) == Ok::<_, EvalError>((instance, *ty, *ctx)),
            Err(e) => enclosing_component(*document, store@, element, *eval_context) == Err::<
                (usize, ComponentDescription, EvaluationContext),
                _,
            >(e),
        },
{
    if !document.tree.resolves_element(element) {
        return Err(EvalError::UnresolvedElement { element });
    }
    let mut current: &'a EvaluationContext = eval_context;
    loop
        invariant
            document.tree.resolves(element),
            enclosing_component(*document, store@, element, *eval_context) == enclosing_component(
                *document,
                store@,
                element,
                *current,
            ),
        decreases current,
    {
        let component = current.component;
        if component >= store.instances.len() {
            return Err(EvalError::UnknownInstance { component });
        }
        let type_index = store.instances[component].component_type;
        if type_index >= document.component_types.len() {
            return Err(EvalError::UnknownInstance { component });
        }
        let ty = &document.component_types[type_index];
        if document.tree.elements[element].enclosing_component == ty.original {
            return Ok((component, ty, current));
        }
        match &current.parent_context {
            Some(parent) => {
                current = &**parent;
            },
            None => {
                return Err(EvalError::NoEnclosingComponent { element });
            },
        }
    }
}

/// Where a property of an element lies in an instance of `component_type`.
pub fn locate_property(
    document: &Document,
    component_type: &ComponentDescription,
    element: usize,
    name: &String,
) -> (r: Result<(usize, PropertyInfo), EvalError>)
    ensures
        r == property_location(*document, *component_type, element, name@),
{
    if !document.tree.resolves_element(element) {
        return Err(EvalError::UnresolvedElement { element });
    }
    if document.tree.is_root_element(element) {
        if let Some(i) = find_entry(&component_type.custom_properties, name) {
            let custom = &component_type.custom_properties[i].1;
            return Ok((custom.offset, custom.prop));
        }
    }
    match find_entry(&component_type.items, &document.tree.elements[element].id) {
        None => Err(EvalError::UnknownItem { element }),
        Some(i) => {
            let item = &component_type.items[i].1;
            match find_entry(&item.rtti.properties, name) {
                None => Err(EvalError::UnknownProperty { element }),
                Some(j) => Ok((item.offset, item.rtti.properties[j].1)),
            }
        },
    }
}

/// The slot of a signal of an element in an instance of `component_type`.
pub fn locate_signal(
    document: &Document,
    component_type: &ComponentDescription,
    element: usize,
    name: &String,
) -> (r: Result<usize, EvalError>)
    ensures
        r == signal_location(*document, *component_type, element, name@),
{
    if !document.tree.resolves_element(element) {
        return Err(EvalError::UnresolvedElement { element });
    }
    match find_entry(&component_type.items, &document.tree.elements[element].id) {
        None => Err(EvalError::UnknownItem { element }),
        Some(i) => {
            let item = &component_type.items[i].1;
            match find_entry(&item.rtti.signals, name) {
                Some(j) => {
                    let within = item.rtti.signals[j].1;
                    if within <= usize::MAX - item.offset {
                        Ok(item.offset + within)
                    } else {
                        Err(EvalError::InvalidOffset { element })
                    }
                },
                None => match find_entry(&component_type.custom_signals, name) {
                    Some(j) => Ok(component_type.custom_signals[j].1),
                    None => Err(EvalError::UnknownSignal { element }),
                },
            }
        },
    }
}

/// The instance, the item and the accessor of the property that a reference names.
pub fn locate_reference(
    reference: &NamedReference,
    eval_context: &EvaluationContext,
    document: &Document,
    store: &InstanceStore,
) -> (r: Result<(usize, usize, PropertyInfo), EvalError>)
    ensures
        r == located_property(
            *document,
            store@,
            *eval_context,
            reference.element,
            reference.name@,
        ),
{
    match enclosing_component_for_element(reference.element, eval_context, document, store) {
        Err(e) => Err(e),
        Ok((instance, ty, _)) => match locate_property(
            document,
            ty,
            reference.element,
            &reference.name,
        ) {
            Err(e) => Err(e),
            Ok((item, prop)) => Ok((instance, item, prop)),
        },
    }
}

/// A field of a value: the field's value where the value is an object that
/// has the field, and `Void` otherwise.
pub fn access_field(base: &Value, name: &String) -> (r: Value)
    ensures
        r@ == field_access(base@, name@),
{
    match base {
        Value::Object(fields) => match find_field(fields, name) {
            Some(i) => fields[i].1.duplicate(),
            None => Value::Void,
        },
        _ => Value::Void,
    }
}

/// Casts a value to a type.
pub fn cast_value(value: Value, to: Type) -> (r: Value)
    ensures
        r@ == cast(value@, to),
{
    match value {
        Value::Number(n) => match to {
            Type::Int32 => Value::Number(n.round()),
            Type::String => Value::String(n.to_text()),
            Type::Color => Value::Color(Color::from_argb_encoded(n.to_u32())),
            _ => Value::Number(n),
        },
        other => other,
    }
}

/// `current op= rhs`: the new value of the property.
pub fn assignment_operation(op: char, current: &Value, rhs: &Value) -> (r: Result<Value, EvalError>)
    ensures
        agrees(r, apply_assignment(op, current@, rhs@)),
{
    match (current, rhs) {
        (Value::Number(a), Value::Number(b)) => {
            if op == '+' {
                Ok(Value::Number(a.plus(*b)))
            } else if op == '-' {
                Ok(Value::Number(a.minus(*b)))
            } else if op == '/' {
                Ok(Value::Number(a.divided_by(*b)))
            } else if op == '*' {
                Ok(Value::Number(a.times(*b)))
            } else {
                Err(EvalError::UnsupportedOperation { op })
            }
        },
        _ => Err(EvalError::UnsupportedOperation { op }),
    }
}

/// `lhs op rhs`.
pub fn binary_operation(op: char, lhs: &Value, rhs: &Value) -> (r: Result<Value, EvalError>)
    ensures
        agrees(r, apply_binary(op, lhs@, rhs@)),
{
    if op == '=' {
        return Ok(Value::Bool(lhs.equals(rhs)));
    }
    if op == '!' {
        return Ok(Value::Bool(!lhs.equals(rhs)));
    }
    match (lhs, rhs) {
        (Value::Number(a), Value::Number(b)) => {
            if op == '+' {
                Ok(Value::Number(a.plus(*b)))
            } else if op == '-' {
                Ok(Value::Number(a.minus(*b)))
            } else if op == '/' {
                Ok(Value::Number(a.divided_by(*b)))
            } else if op == '*' {
                Ok(Value::Number(a.times(*b)))
            } else if op == '<' {
                Ok(Value::Bool(a.less_than(*b)))
            } else if op == '>' {
                Ok(Value::Bool(b.less_than(*a)))
            } else if op == '\u{2264}' {
                Ok(Value::Bool(a.at_most(*b)))
            } else if op == '\u{2265}' {
                Ok(Value::Bool(b.at_most(*a)))
            } else {
                Err(EvalError::UnsupportedOperation { op })
            }
        },
        (Value::Bool(a), Value::Bool(b)) => {
            if op == '&' {
                Ok(Value::Bool(*a && *b))
            } else if op == '|' {
                Ok(Value::Bool(*a || *b))
            } else {
                Err(EvalError::UnsupportedOperation { op })
            }
        },
        _ => Err(EvalError::UnsupportedOperation { op }),
    }
}

/// `op sub`.
pub fn unary_operation(op: char, sub: &Value) -> (r: Result<Value, EvalError>)
    ensures
        agrees(r, apply_unary(op, sub@)),
{
    match sub {
        Value::Number(a) => {
            if op == '+' {
                Ok(Value::Number(*a))
            } else if op == '-' {
                Ok(Value::Number(a.negate()))
            } else {
                Err(EvalError::UnsupportedOperation { op })
            }
        },
        Value::Bool(a) => {
            if op == '!' {
                Ok(Value::Bool(!*a))
            } else {
                Err(EvalError::UnsupportedOperation { op })
            }
        },
        _ => Err(EvalError::UnsupportedOperation { op }),
    }
}


/// Reads the property that a reference names.
pub fn read_reference(
    reference: &NamedReference,
    eval_context: &EvaluationContext,
    document: &Document,
    store: &InstanceStore,
) -> (r: Result<Value, EvalError>)
    ensures
        agrees(
            r,
            read_property(*document, store@, *eval_context, reference.element, reference.name@),
        ),
{
    match locate_reference(reference, eval_context, document, store) {
        Err(e) => Err(e),
        Ok((instance, item, prop)) => match store.read(instance, item, &prop) {
            None => Err(EvalError::InvalidOffset { element: reference.element }),
            Some(v) => Ok(v),
        },
    }
}

/// Reads one of the properties that a repeater gives to each of its instances.
pub fn read_repeater_reference(
    element: usize,
    name: &String,
    component_type: &ComponentDescription,
    eval_context: &EvaluationContext,
    document: &Document,
    store: &InstanceStore,
) -> (r: Result<Value, EvalError>)
    ensures
        agrees(
            r,
            read_repeater_property(
                *document,
                store@,
                *component_type,
                *eval_context,
                element,
                name@,
            ),
        ),
{
    if element >= document.tree.elements.len() {
        return Err(EvalError::UnresolvedElement { element });
    }
    if document.tree.elements[element].base_type != Type::Component(component_type.original) {
        return Err(EvalError::UnsupportedRepeaterReference { element });
    }
    match find_entry(&component_type.custom_properties, name) {
        None => Err(EvalError::UnknownProperty { element }),
        Some(i) => {
            let custom = &component_type.custom_properties[i].1;
            match store.read(eval_context.component, custom.offset, &custom.prop) {
                None => Err(EvalError::InvalidOffset { element }),
                Some(v) => Ok(v),
            }
        },
    }
}

/// Emits the signal that a reference names.
pub fn emit_reference(
    reference: &NamedReference,
    eval_context: &EvaluationContext,
    document: &Document,
    store: &mut InstanceStore,
) -> (r: Result<Value, EvalError>)
    ensures
        ({
            let out = emit_signal(
                *document,
                old(store)@,
                *eval_context,
                reference.element,
                reference.name@,
            );
            agrees(r, out.result) && final(store)@ == out.store
        }),
{
    match enclosing_component_for_element(reference.element, eval_context, document, store) {
        Err(e) => Err(e),
        Ok((instance, ty, _)) => match locate_signal(
            document,
            ty,
            reference.element,
            &reference.name,
        ) {
            Err(e) => Err(e),
            Ok(signal) => {
                store.emit(SignalEmission { component: instance, signal });
                Ok(Value::Void)
            },
        },
    }
}

/// Evaluates an expression for a component type in a context. Properties are
/// read from and written to the instances of the store, and an emitted signal
/// is added to the store's record.
pub fn eval_expression(
    e: &Expression,
    component_type: &ComponentDescription,
    eval_context: &EvaluationContext,
    document: &Document,
    store: &mut InstanceStore,
) -> (r: Result<Value, EvalError>)
    ensures
        ({
            let out = eval_spec(*e, *component_type, *eval_context, *document, old(store)@);
            agrees(r, out.result) && final(store)@ == out.store
        }),
    decreases e, 0nat,
{
    match e {
        Expression::Invalid => Err(EvalError::InvalidExpression),
        Expression::Uncompiled => Err(EvalError::UncompiledExpression),
        Expression::StringLiteral(s) => Ok(Value::String(s.clone())),
        Expression::NumberLiteral(n) => Ok(Value::Number(*n)),
        Expression::BoolLiteral(b) => Ok(Value::Bool(*b)),
        Expression::SignalReference(_) => Err(EvalError::SignalInExpression),
        Expression::PropertyReference(reference) => read_reference(
            reference,
            eval_context,
            document,
            store,
        ),
        Expression::RepeaterIndexReference { element } => {
            let name = "index".to_owned();
            read_repeater_reference(*element, &name, component_type, eval_context, document, store)
        },
        Expression::RepeaterModelReference { element } => {
            let name = "model_data".to_owned();
            read_repeater_reference(*element, &name, component_type, eval_context, document, store)
        },
        Expression::ObjectAccess { base, name } => {
            match eval_expression(base, component_type, eval_context, document, store) {
                Err(e) => Err(e),
                Ok(v) => Ok(access_field(&v, name)),
            }
        },
        Expression::Cast { from, to } => {
            match eval_expression(from, component_type, eval_context, document, store) {
                Err(e) => Err(e),
                Ok(v) => Ok(cast_value(v, *to)),
            }
        },
        Expression::CodeBlock(sub) => eval_block(sub, component_type, eval_context, document, store),
        Expression::FunctionCall { function } => match &**function {
            Expression::SignalReference(reference) => emit_reference(
                reference,
                eval_context,
                document,
                store,
            ),
            _ => Err(EvalError::NotASignal),
        },
        Expression::SelfAssignment { lhs, rhs, op } => match &**lhs {
            Expression::PropertyReference(reference) => {
                let (instance, item, prop) = match locate_reference(
                    reference,
                    eval_context,
                    document,
                    store,
                ) {
                    Err(e) => {
                        return Err(e);
                    },
                    Ok(found) => found,
                };
                let current = match store.read(instance, item, &prop) {
                    None => {
                        return Err(EvalError::InvalidOffset { element: reference.element });
                    },
                    Some(v) => v,
                };
                let operand = match eval_expression(
                    rhs,
                    component_type,
                    eval_context,
                    document,
                    store,
                ) {
                    Err(e) => {
                        return Err(e);
                    },
                    Ok(v) => v,
                };
                let value = match assignment_operation(*op, &current, &operand) {
                    Err(e) => {
                        return Err(e);
                    },
                    Ok(v) => v,
                };
                match store.write(instance, item, &prop, value) {
                    Ok(_) => Ok(Value::Void),
                    Err(WriteError::OutOfRange) => Err(
                        EvalError::InvalidOffset { element: reference.element },
                    ),
                    Err(WriteError::Incompatible) => Err(
                        EvalError::IncompatibleValue { element: reference.element },
                    ),
                }
            },
            _ => Err(EvalError::NotAProperty),
        },
        Expression::BinaryExpression { lhs, rhs, op } => {
            let a = match eval_expression(lhs, component_type, eval_context, document, store) {
                Err(e) => {
                    return Err(e);
                },
                Ok(v) => v,
            };
            let b = match eval_expression(rhs, component_type, eval_context, document, store) {
                Err(e) => {
                    return Err(e);
                },
                Ok(v) => v,
            };
            binary_operation(*op, &a, &b)
        },
        Expression::UnaryOp { sub, op } => {
            match eval_expression(sub, component_type, eval_context, document, store) {
                Err(e) => Err(e),
                Ok(a) => unary_operation(*op, &a),
            }
        },
        Expression::ResourceReference { absolute_source_path } => Ok(
            Value::Resource(Resource::AbsoluteFilePath(absolute_source_path.clone())),
        ),
        Expression::Condition { condition, true_expr, false_expr } => {
            match eval_expression(condition, component_type, eval_context, document, store) {
                Err(e) => Err(e),
                Ok(Value::Bool(true)) => eval_expression(
                    true_expr,
                    component_type,
                    eval_context,
                    document,
                    store,
                ),
                Ok(Value::Bool(false)) => eval_expression(
                    false_expr,
                    component_type,
                    eval_context,
                    document,
                    store,
                ),
                Ok(_) => Err(EvalError::ConditionNotBoolean),
            }
        },
        Expression::Array { element_ty: _, values } => {
            match eval_list(values, component_type, eval_context, document, store) {
                Err(e) => Err(e),
                Ok(items) => Ok(Value::Array(items)),
            }
        },
        Expression::Object { ty: _, values } => {
            match eval_fields(values, component_type, eval_context, document, store) {
                Err(e) => Err(e),
                Ok(fields) => Ok(Value::Object(fields)),
            }
        },
        Expression::PathElements { elements } => {
            match eval_path(elements, component_type, eval_context, document, store) {
                Err(e) => Err(e),
                Ok(path) => Ok(Value::PathElements(path)),
            }
        },
    }
}

/// Evaluates the expressions of a block in order, for the value of the last.
pub fn eval_block(
    list: &Vec<Expression>,
    component_type: &ComponentDescription,
    eval_context: &EvaluationContext,
    document: &Document,
    store: &mut InstanceStore,
) -> (r: Result<Value, EvalError>)
    ensures
        ({
            let out = eval_spec(
                Expression::CodeBlock(*list),
                *component_type,
                *eval_context,
                *document,
                old(store)@,
            );
            agrees(r, out.result) && final(store)@ == out.store
        }),
    decreases list, 0nat,
{
    let ghost start = store@;
    let mut last = Value::Void;
    let mut i: usize = 0;
    while i < list.len()
        invariant
            start == old(store)@,
            i <= list.len(),
            ({
                let out = eval_list_spec(
                    *list,
                    i as nat,
                    *component_type,
                    *eval_context,
                    *document,
                    start,
                );
                &&& out.store == store@
                &&& out.result is Ok
                &&& out.result->Ok_0.len() == i
                &&& i > 0 ==> out.result->Ok_0.last() == last@
                &&& i == 0 ==> last@ == ValueView::Void
            }),
        decreases list.len() - i,
    {
        let outcome = eval_expression(&list[i], component_type, eval_context, document, store);
        match outcome {
            Err(e) => {
                proof {
                    lemma_list_failure_persists(
                        *list,
                        (i + 1) as nat,
                        list.len() as nat,
                        *component_type,
                        *eval_context,
                        *document,
                        start,
                    );
                }
                return Err(e);
            },
            Ok(v) => {
                last = v;
            },
        }
        i = i + 1;
    }
    Ok(last)
}

/// Evaluates the expressions of a list in order.
pub fn eval_list(
    list: &Vec<Expression>,
    component_type: &ComponentDescription,
    eval_context: &EvaluationContext,
    document: &Document,
    store: &mut InstanceStore,
) -> (r: Result<Vec<Value>, EvalError>)
    ensures
        ({
            let out = eval_list_spec(
                *list,
                list.len() as nat,
                *component_type,
                *eval_context,
                *document,
                old(store)@,
            );
            &&& final(store)@ == out.store
            &&& match r {
                Ok(values) => out.result == Ok::<Seq<ValueView>, EvalError>(items_view(values)),
                Err(e) => out.result == Err::<Seq<ValueView>, EvalError>(e),
            }
        }),
    decreases list, 0nat,
{
    let ghost start = store@;
    let mut values: Vec<Value> = Vec::new();
    assert(items_view(values) =~= Seq::empty());
    let mut i: usize = 0;
    while i < list.len()
        invariant
            start == old(store)@,
            i <= list.len(),
            values.len() == i,
            ({
                let out = eval_list_spec(
                    *list,
                    i as nat,
                    *component_type,
                    *eval_context,
                    *document,
                    start,
                );
                &&& out.store == store@
                &&& out.result == Ok::<Seq<ValueView>, EvalError>(items_view(values))
            }),
        decreases list.len() - i,
    {
        let ghost before = items_view(values);
        let outcome = eval_expression(&list[i], component_type, eval_context, document, store);
        match outcome {
            Err(e) => {
                proof {
                    lemma_list_failure_persists(
                        *list,
                        (i + 1) as nat,
                        list.len() as nat,
                        *component_type,
                        *eval_context,
                        *document,
                        start,
                    );
                }
                return Err(e);
            },
            Ok(v) => {
                let ghost view = v@;
                values.push(v);
                assert(items_view(values) =~= before.push(view));
            },
        }
        i = i + 1;
    }
    Ok(values)
}

/// Evaluates the entries of an object expression in order.
pub fn eval_fields(
    entries: &Vec<(String, Expression)>,
    component_type: &ComponentDescription,
    eval_context: &EvaluationContext,
    document: &Document,
    store: &mut InstanceStore,
) -> (r: Result<Vec<(String, Value)>, EvalError>)
    ensures
        ({
            let out = eval_fields_spec(
                *entries,
                entries.len() as nat,
                *component_type,
                *eval_context,
                *document,
                old(store)@,
            );
            &&& final(store)@ == out.store
            &&& match r {
                Ok(fields) => out.result == Ok::<Map<Seq<char>, ValueView>, EvalError>(
                    fields_view(fields, fields.len() as nat),
                ),
                Err(e) => out.result == Err::<Map<Seq<char>, ValueView>, EvalError>(e),
            }
        }),
    decreases entries, 0nat,
{
    let ghost start = store@;
    let mut fields: Vec<(String, Value)> = Vec::new();
    let mut i: usize = 0;
    while i < entries.len()
        invariant
            start == old(store)@,
            i <= entries.len(),
            fields.len() == i,
            ({
                let out = eval_fields_spec(
                    *entries,
                    i as nat,
                    *component_type,
                    *eval_context,
                    *document,
                    start,
                );
                &&& out.store == store@
                &&& out.result == Ok::<Map<Seq<char>, ValueView>, EvalError>(
                    fields_view(fields, i as nat),
                )
            }),
        decreases entries.len() - i,
    {
        let ghost before = fields;
        let outcome = eval_expression(
            &entries[i].1,
            component_type,
            eval_context,
            document,
            store,
        );
        match outcome {
            Err(e) => {
                proof {
                    lemma_fields_failure_persists(
                        *entries,
                        (i + 1) as nat,
                        entries.len() as nat,
                        *component_type,
                        *eval_context,
                        *document,
                        start,
                    );
                }
                return Err(e);
            },
            Ok(v) => {
                fields.push((entries[i].0.clone(), v));
                proof {
                    lemma_fields_view_congruent(fields, before, i as nat);
                }
            },
        }
        i = i + 1;
    }
    Ok(fields)
}

/// Makes a shape of the given kind from bindings: each field that has a
/// binding is set to the value of that binding, in the order in which the
/// kind declares its fields, and the other fields keep their defaults.
pub fn new_struct_with_bindings(
    kind: ShapeKind,
    bindings: &Vec<(String, Expression)>,
    component_type: &ComponentDescription,
    eval_context: &EvaluationContext,
    document: &Document,
    store: &mut InstanceStore,
) -> (r: Result<PathElement, EvalError>)
    ensures
        ({
            let out = build_spec(
                kind,
                *bindings,
                shape_fields(kind).len(),
                *component_type,
                *eval_context,
                *document,
                old(store)@,
            );
            final(store)@ == out.store && out.result == r
        }),
    decreases bindings, 0nat,
{
    let ghost start = store@;
    let fields = kind.fields();
    let mut element = kind.default_element();
    let mut i: usize = 0;
    while i < fields.len()
        invariant
            start == old(store)@,
            i <= fields.len(),
            fields@ == shape_fields(kind),
            ({
                let out = build_spec(
                    kind,
                    *bindings,
                    i as nat,
                    *component_type,
                    *eval_context,
                    *document,
                    start,
                );
                out.store == store@ && out.result == Ok::<PathElement, EvalError>(element)
            }),
        decreases fields.len() - i,
    {
        let field = fields[i];
        let name = field.name();
        if let Some(j) = find_entry(bindings, &name) {
            let outcome = eval_expression(
                &bindings[j].1,
                component_type,
                eval_context,
                document,
                store,
            );
            let failure = match outcome {
                Err(e) => Some(e),
                Ok(v) => match field.set_field(&mut element, &v) {
                    Err(_) => Some(EvalError::IncompatibleField),
                    Ok(_) => None,
                },
            };
            if let Some(e) = failure {
                proof {
                    lemma_build_failure_persists(
                        kind,
                        *bindings,
                        (i + 1) as nat,
                        fields.len() as nat,
                        *component_type,
                        *eval_context,
                        *document,
                        start,
                    );
                }
                return Err(e);
            }
        }
        i = i + 1;
    }
    Ok(element)
}

/// Makes the segment that a description of a path segment stands for.
pub fn convert_path_element(
    expr_element: &ExprPathElement,
    component_type: &ComponentDescription,
    eval_context: &EvaluationContext,
    document: &Document,
    store: &mut InstanceStore,
) -> (r: Result<PathElement, EvalError>)
    ensures
        ({
            let out = convert_path_element_spec(
                *expr_element,
                *component_type,
                *eval_context,
                *document,
                old(store)@,
            );
            final(store)@ == out.store && out.result == r
        }),
    decreases expr_element, 0nat,
{
    match ShapeKind::from_class_name(&expr_element.class_name) {
        None => Err(EvalError::UnsupportedPathElement),
        Some(kind) => new_struct_with_bindings(
            kind,
            &expr_element.bindings,
            component_type,
            eval_context,
            document,
            store,
        ),
    }
}

/// Makes the segments of a path, in order.
pub fn eval_path(
    elements: &Vec<ExprPathElement>,
    component_type: &ComponentDescription,
    eval_context: &EvaluationContext,
    document: &Document,
    store: &mut InstanceStore,
) -> (r: Result<Vec<PathElement>, EvalError>)
    ensures
        ({
            let out = eval_path_spec(
                *elements,
                elements.len() as nat,
                *component_type,
                *eval_context,
                *document,
                old(store)@,
            );
            &&& final(store)@ == out.store
            &&& match r {
                Ok(path) => out.result == Ok::<Seq<PathElement>, EvalError>(path@),
                Err(e) => out.result == Err::<Seq<PathElement>, EvalError>(e),
            }
        }),
    decreases elements, 0nat,
{
    let ghost start = store@;
    let mut path: Vec<PathElement> = Vec::new();
    let mut i: usize = 0;
    while i < elements.len()
        invariant
            start == old(store)@,
            i <= elements.len(),
            path.len() == i,
            ({
                let out = eval_path_spec(
                    *elements,
                    i as nat,
                    *component_type,
                    *eval_context,
                    *document,
                    start,
                );
                out.store == store@ && out.result == Ok::<Seq<PathElement>, EvalError>(path@)
            }),
        decreases elements.len() - i,
    {
        let outcome = convert_path_element(
            &elements[i],
            component_type,
            eval_context,
            document,
            store,
        );
        match outcome {
            Err(e) => {
                proof {
                    lemma_path_failure_persists(
                        *elements,
                        (i + 1) as nat,
                        elements.len() as nat,
                        *component_type,
                        *eval_context,
                        *document,
                        start,
                    );
                }
                return Err(e);
            },
            Ok(segment) => {
                path.push(segment);
            },
        }
        i = i + 1;
    }
    Ok(path)
}

} // verus!
