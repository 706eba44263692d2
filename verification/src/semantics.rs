//! What evaluation means: for every expression, the value or the error that it
//! comes to, and the store that it leaves behind.

use crate::component::{
    ComponentDescription, Document, ErasedPropertyInfo, EvaluationContext, PropertyInfo,
    SignalEmission, StoreView,
};
use crate::error::EvalError;
use crate::expression::{ExprPathElement, Expression, Type};
use crate::number::{
    negated, number_difference, number_le, number_lt, number_product, number_quotient,
    number_rounded, number_sum, number_to_u32,
};
use crate::shape::{default_shape, field_name, shape_fields, shape_kind_of, with_field, ShapeKind};
use crate::table::{last_index, table_of};
use crate::text::number_text;
use crate::value::{color_of, values_equal, PathElement, ValueView};
use vstd::prelude::*;

verus! {

/// How an evaluation ends: with a result, and with the store as it then is.
pub ghost struct Outcome<T> {
    pub result: Result<T, EvalError>,
    pub store: StoreView,
}

/// The outcome of an evaluation that succeeded.
pub open spec fn done<T>(value: T, store: StoreView) -> Outcome<T> {
    Outcome { result: Ok(value), store }
}

/// The outcome of an evaluation that failed.
pub open spec fn failed<T>(error: EvalError, store: StoreView) -> Outcome<T> {
    Outcome { result: Err(error), store }
}

/// The instance that owns an element, with its type and its context: the first
/// context of the chain, from `ctx` outwards, whose instance is of the type
/// built from the component that declares the element.
pub open spec fn enclosing_component(
    doc: Document,
    st: StoreView,
    element: usize,
    ctx: EvaluationContext,
) -> Result<(usize, ComponentDescription, EvaluationContext), EvalError>
    decreases ctx,
{
    if !doc.tree.resolves(element) {
        Err(EvalError::UnresolvedElement { element })
    } else if !doc.knows_instance(st, ctx.component) {
        Err(EvalError::UnknownInstance { component: ctx.component })
    } else {
        let ty = doc.type_of_instance(st, ctx.component);
        if doc.tree.elements[element as int].enclosing_component == ty.original {
            Ok((ctx.component, ty, ctx))
        } else {
            match ctx.parent_context {
                Some(parent) => enclosing_component(doc, st, element, *parent),
                None => Err(EvalError::NoEnclosingComponent { element }),
            }
        }
    }
}

/// Where a property of an element lies in an instance of `ty`: the first slot
/// of the item, and the accessor. A property that the component declares on
/// its root element comes before one of the root item.
pub open spec fn property_location(
    doc: Document,
    ty: ComponentDescription,
    element: usize,
    name: Seq<char>,
) -> Result<(usize, PropertyInfo), EvalError> {
    let custom = table_of(ty.custom_properties@);
    let items = table_of(ty.items@);
    let id = doc.tree.elements[element as int].id@;
    if !doc.tree.resolves(element) {
        Err(EvalError::UnresolvedElement { element })
    } else if doc.tree.is_root(element) && custom.contains_key(name) {
        Ok((custom[name].offset, custom[name].prop))
    } else if !items.contains_key(id) {
        Err(EvalError::UnknownItem { element })
    } else if !table_of(items[id].rtti.properties@).contains_key(name) {
        Err(EvalError::UnknownProperty { element })
    } else {
        Ok((items[id].offset, table_of(items[id].rtti.properties@)[name]))
    }
}

/// The instance, the item and the accessor of a property of an element.
pub open spec fn located_property(
    doc: Document,
    st: StoreView,
    ctx: EvaluationContext,
    element: usize,
    name: Seq<char>,
) -> Result<(usize, usize, PropertyInfo), EvalError> {
    match enclosing_component(doc, st, element, ctx) {
        Err(e) => Err(e),
        Ok((instance, ty, _)) => match property_location(doc, ty, element, name) {
            Err(e) => Err(e),
            Ok((item, prop)) => Ok((instance, item, prop)),
        },
    }
}

/// The current value of a property of an element.
pub open spec fn read_property(
    doc: Document,
    st: StoreView,
    ctx: EvaluationContext,
    element: usize,
    name: Seq<char>,
) -> Result<ValueView, EvalError> {
    match located_property(doc, st, ctx, element, name) {
        Err(e) => Err(e),
        Ok((instance, item, prop)) => match st.read(instance, item + prop.offset) {
            None => Err(EvalError::InvalidOffset { element }),
            Some(v) => Ok(v),
        },
    }
}

/// The value of one of the properties that a repeater gives to each of its
/// instances, read from the instance of the context itself.
pub open spec fn read_repeater_property(
    doc: Document,
    st: StoreView,
    ty: ComponentDescription,
    ctx: EvaluationContext,
    element: usize,
    name: Seq<char>,
) -> Result<ValueView, EvalError> {
    let custom = table_of(ty.custom_properties@);
    if element >= doc.tree.elements.len() {
        Err(EvalError::UnresolvedElement { element })
    } else if doc.tree.elements[element as int].base_type != Type::Component(ty.original) {
        Err(EvalError::UnsupportedRepeaterReference { element })
    } else if !custom.contains_key(name) {
        Err(EvalError::UnknownProperty { element })
    } else {
        match st.read(ctx.component, custom[name].offset + custom[name].prop.offset) {
            None => Err(EvalError::InvalidOffset { element }),
            Some(v) => Ok(v),
        }
    }
}

/// The slot of a signal of an element in an instance of `ty`. A signal of the
/// element's item comes before one that the component declares.
pub open spec fn signal_location(
    doc: Document,
    ty: ComponentDescription,
    element: usize,
    name: Seq<char>,
) -> Result<usize, EvalError> {
    let items = table_of(ty.items@);
    let custom = table_of(ty.custom_signals@);
    let id = doc.tree.elements[element as int].id@;
    if !doc.tree.resolves(element) {
        Err(EvalError::UnresolvedElement { element })
    } else if !items.contains_key(id) {
        Err(EvalError::UnknownItem { element })
    } else if table_of(items[id].rtti.signals@).contains_key(name) {
        let slot = items[id].offset + table_of(items[id].rtti.signals@)[name];
        if slot <= usize::MAX {
            Ok(slot as usize)
        } else {
            Err(EvalError::InvalidOffset { element })
        }
    } else if custom.contains_key(name) {
        Ok(custom[name])
    } else {
        Err(EvalError::UnknownSignal { element })
    }
}

/// The emission of a signal of an element.
pub open spec fn emit_signal(
    doc: Document,
    st: StoreView,
    ctx: EvaluationContext,
    element: usize,
    name: Seq<char>,
) -> Outcome<ValueView> {
    match enclosing_component(doc, st, element, ctx) {
        Err(e) => failed(e, st),
        Ok((instance, ty, _)) => match signal_location(doc, ty, element, name) {
            Err(e) => failed(e, st),
            Ok(signal) => done(
                ValueView::Void,
                st.emit(SignalEmission { component: instance, signal }),
            ),
        },
    }
}

/// A field of a value: the field's value where the value is an object that
/// has the field, and `Void` otherwise.
pub open spec fn field_access(base: ValueView, name: Seq<char>) -> ValueView {
    match base {
        ValueView::Object(fields) => if fields.contains_key(name) {
            fields[name]
        } else {
            ValueView::Void
        },
        _ => ValueView::Void,
    }
}

/// A value cast to a type. A number is rounded for an integer, written out for
/// a string, and cut off and unpacked for a colour; every other value stays as
/// it is.
pub open spec fn cast(value: ValueView, to: Type) -> ValueView {
    match (value, to) {
        (ValueView::Number(n), Type::Int32) => ValueView::Number(number_rounded(n)),
        (ValueView::Number(n), Type::String) => ValueView::String(number_text(n)),
        (ValueView::Number(n), Type::Color) => ValueView::Color(color_of(number_to_u32(n))),
        _ => value,
    }
}

/// `current op= rhs`: the new value of the property.
pub open spec fn apply_assignment(op: char, current: ValueView, rhs: ValueView) -> Result<
    ValueView,
    EvalError,
> {
    match (current, rhs) {
        (ValueView::Number(a), ValueView::Number(b)) => if op == '+' {
            Ok(ValueView::Number(number_sum(a, b)))
        } else if op == '-' {
            Ok(ValueView::Number(number_difference(a, b)))
        } else if op == '/' {
            Ok(ValueView::Number(number_quotient(a, b)))
        } else if op == '*' {
            Ok(ValueView::Number(number_product(a, b)))
        } else {
            Err(EvalError::UnsupportedOperation { op })
        },
        _ => Err(EvalError::UnsupportedOperation { op }),
    }
}

/// `lhs op rhs`. `=` and `!` compare any two values; the arithmetic and the
/// ordering operators take two numbers; `&` and `|` take two truth values.
pub open spec fn apply_binary(op: char, lhs: ValueView, rhs: ValueView) -> Result<
    ValueView,
    EvalError,
> {
    if op == '=' {
        Ok(ValueView::Bool(values_equal(lhs, rhs)))
    } else if op == '!' {
        Ok(ValueView::Bool(!values_equal(lhs, rhs)))
    } else {
        match (lhs, rhs) {
            (ValueView::Number(a), ValueView::Number(b)) => if op == '+' {
                Ok(ValueView::Number(number_sum(a, b)))
            } else if op == '-' {
                Ok(ValueView::Number(number_difference(a, b)))
            } else if op == '/' {
                Ok(ValueView::Number(number_quotient(a, b)))
            } else if op == '*' {
                Ok(ValueView::Number(number_product(a, b)))
            } else if op == '<' {
                Ok(ValueView::Bool(number_lt(a, b)))
            } else if op == '>' {
                Ok(ValueView::Bool(number_lt(b, a)))
            } else if op == '\u{2264}' {
                Ok(ValueView::Bool(number_le(a, b)))
            } else if op == '\u{2265}' {
                Ok(ValueView::Bool(number_le(b, a)))
            } else {
                Err(EvalError::UnsupportedOperation { op })
            },
            (ValueView::Bool(a), ValueView::Bool(b)) => if op == '&' {
                Ok(ValueView::Bool(a && b))
            } else if op == '|' {
                Ok(ValueView::Bool(a || b))
            } else {
                Err(EvalError::UnsupportedOperation { op })
            },
            _ => Err(EvalError::UnsupportedOperation { op }),
        }
    }
}

/// `op sub`.
pub open spec fn apply_unary(op: char, sub: ValueView) -> Result<ValueView, EvalError> {
    match sub {
        ValueView::Number(a) => if op == '+' {
            Ok(ValueView::Number(a))
        } else if op == '-' {
            Ok(ValueView::Number(negated(a)))
        } else {
            Err(EvalError::UnsupportedOperation { op })
        },
        ValueView::Bool(a) => if op == '!' {
            Ok(ValueView::Bool(!a))
        } else {
            Err(EvalError::UnsupportedOperation { op })
        },
        _ => Err(EvalError::UnsupportedOperation { op }),
    }
}

/// The write that ends a self-assignment.
pub open spec fn store_assigned(
    st: StoreView,
    element: usize,
    instance: usize,
    item: usize,
    prop: PropertyInfo,
    value: ValueView,
) -> Outcome<ValueView> {
    if st.read(instance, item + prop.offset) is None {
        failed(EvalError::InvalidOffset { element }, st)
    } else if !prop.accepts(value) {
        failed(EvalError::IncompatibleValue { element }, st)
    } else {
        done(ValueView::Void, st.write(instance, item + prop.offset, value))
    }
}

/// The value of an expression, evaluated for a component type in a context,
/// and the store after the evaluation. An evaluation that fails leaves the
/// store as it was when the failure was found.
pub open spec fn eval_spec(
    e: Expression,
    ty: ComponentDescription,
    ctx: EvaluationContext,
    doc: Document,
    st: StoreView,
) -> Outcome<ValueView>
    decreases e, 0nat,
{
    match e {
        Expression::Invalid => failed(EvalError::InvalidExpression, st),
        Expression::Uncompiled => failed(EvalError::UncompiledExpression, st),
        Expression::StringLiteral(s) => done(ValueView::String(s@), st),
        Expression::NumberLiteral(n) => done(ValueView::Number(n.bits), st),
        Expression::BoolLiteral(b) => done(ValueView::Bool(b), st),
        Expression::SignalReference(_) => failed(EvalError::SignalInExpression, st),
        Expression::PropertyReference(reference) => Outcome {
            result: read_property(doc, st, ctx, reference.element, reference.name@),
            store: st,
        },
        Expression::RepeaterIndexReference { element } => Outcome {
            result: read_repeater_property(doc, st, ty, ctx, element, "index"@),
            store: st,
        },
        Expression::RepeaterModelReference { element } => Outcome {
            result: read_repeater_property(doc, st, ty, ctx, element, "model_data"@),
            store: st,
        },
        Expression::ObjectAccess { base, name } => {
            let base = eval_spec(*base, ty, ctx, doc, st);
            match base.result {
                Err(_) => base,
                Ok(v) => done(field_access(v, name@), base.store),
            }
        },
        Expression::Cast { from, to } => {
            let from = eval_spec(*from, ty, ctx, doc, st);
            match from.result {
                Err(_) => from,
                Ok(v) => done(cast(v, to), from.store),
            }
        },
        Expression::CodeBlock(sub) => {
            let all = eval_list_spec(sub, sub.len() as nat, ty, ctx, doc, st);
            match all.result {
                Err(e) => failed(e, all.store),
                Ok(values) => done(
                    if values.len() == 0 {
                        ValueView::Void
                    } else {
                        values.last()
                    },
                    all.store,
                ),
            }
        },
        Expression::FunctionCall { function } => match *function {
            Expression::SignalReference(reference) => emit_signal(
                doc,
                st,
                ctx,
                reference.element,
                reference.name@,
            ),
            _ => failed(EvalError::NotASignal, st),
        },
        Expression::SelfAssignment { lhs, rhs, op } => match *lhs {
            Expression::PropertyReference(reference) => match located_property(
                doc,
                st,
                ctx,
                reference.element,
                reference.name@,
            ) {
                Err(e) => failed(e, st),
                Ok((instance, item, prop)) => match st.read(instance, item + prop.offset) {
                    None => failed(EvalError::InvalidOffset { element: reference.element }, st),
                    Some(current) => {
                        let rhs = eval_spec(*rhs, ty, ctx, doc, st);
                        match rhs.result {
                            Err(_) => rhs,
                            Ok(v) => match apply_assignment(op, current, v) {
                                Err(e) => failed(e, rhs.store),
                                Ok(value) => store_assigned(
                                    rhs.store,
                                    reference.element,
                                    instance,
                                    item,
                                    prop,
                                    value,
                                ),
                            },
                        }
                    },
                },
            },
            _ => failed(EvalError::NotAProperty, st),
        },
        Expression::BinaryExpression { lhs, rhs, op } => {
            let lhs = eval_spec(*lhs, ty, ctx, doc, st);
            match lhs.result {
                Err(_) => lhs,
                Ok(a) => {
                    let rhs = eval_spec(*rhs, ty, ctx, doc, lhs.store);
                    match rhs.result {
                        Err(_) => rhs,
                        Ok(b) => Outcome { result: apply_binary(op, a, b), store: rhs.store },
                    }
                },
            }
        },
        Expression::UnaryOp { sub, op } => {
            let sub = eval_spec(*sub, ty, ctx, doc, st);
            match sub.result {
                Err(_) => sub,
                Ok(a) => Outcome { result: apply_unary(op, a), store: sub.store },
            }
        },
        Expression::ResourceReference { absolute_source_path } => done(
            ValueView::Resource(Some(absolute_source_path@)),
            st,
        ),
        Expression::Condition { condition, true_expr, false_expr } => {
            let condition = eval_spec(*condition, ty, ctx, doc, st);
            match condition.result {
                Err(_) => condition,
                Ok(ValueView::Bool(true)) => eval_spec(*true_expr, ty, ctx, doc, condition.store),
                Ok(ValueView::Bool(false)) => eval_spec(*false_expr, ty, ctx, doc, condition.store),
                Ok(_) => failed(EvalError::ConditionNotBoolean, condition.store),
            }
        },
        Expression::Array { element_ty, values } => {
            let all = eval_list_spec(values, values.len() as nat, ty, ctx, doc, st);
            match all.result {
                Err(e) => failed(e, all.store),
                Ok(items) => done(ValueView::Array(items), all.store),
            }
        },
        Expression::Object { ty: _, values } => {
            let all = eval_fields_spec(values, values.len() as nat, ty, ctx, doc, st);
            match all.result {
                Err(e) => failed(e, all.store),
                Ok(fields) => done(ValueView::Object(fields), all.store),
            }
        },
        Expression::PathElements { elements } => {
            let all = eval_path_spec(elements, elements.len() as nat, ty, ctx, doc, st);
            match all.result {
                Err(e) => failed(e, all.store),
                Ok(path) => done(ValueView::PathElements(path), all.store),
            }
        },
    }
}

/// The values of the first `n` expressions of a list, evaluated in order, each
/// in the store that the one before it left.
pub open spec fn eval_list_spec(
    list: Vec<Expression>,
    n: nat,
    ty: ComponentDescription,
    ctx: EvaluationContext,
    doc: Document,
    st: StoreView,
) -> Outcome<Seq<ValueView>>
    decreases list, n,
{
    if n == 0 || n > list.len() {
        done(Seq::empty(), st)
    } else {
        let before = eval_list_spec(list, (n - 1) as nat, ty, ctx, doc, st);
        match before.result {
            Err(_) => before,
            Ok(values) => {
                let next = eval_spec(list[n - 1], ty, ctx, doc, before.store);
                match next.result {
                    Err(e) => failed(e, next.store),
                    Ok(v) => done(values.push(v), next.store),
                }
            },
        }
    }
}

/// The fields that the first `n` entries of an object expression define,
/// evaluated in order. Where a name stands twice, the later entry is the field.
pub open spec fn eval_fields_spec(
    entries: Vec<(String, Expression)>,
    n: nat,
    ty: ComponentDescription,
    ctx: EvaluationContext,
    doc: Document,
    st: StoreView,
) -> Outcome<Map<Seq<char>, ValueView>>
    decreases entries, n,
{
    if n == 0 || n > entries.len() {
        done(Map::empty(), st)
    } else {
        let before = eval_fields_spec(entries, (n - 1) as nat, ty, ctx, doc, st);
        match before.result {
            Err(_) => before,
            Ok(fields) => {
                let next = eval_spec(entries[n - 1].1, ty, ctx, doc, before.store);
                match next.result {
                    Err(e) => failed(e, next.store),
                    Ok(v) => done(fields.insert(entries[n - 1].0@, v), next.store),
                }
            },
        }
    }
}

/// The shape of a kind after its first `n` fields have been taken from the
/// bindings: a field that has a binding gets the value of that binding, and a
/// field without one keeps its default.
pub open spec fn build_spec(
    kind: ShapeKind,
    bindings: Vec<(String, Expression)>,
    n: nat,
    ty: ComponentDescription,
    ctx: EvaluationContext,
    doc: Document,
    st: StoreView,
) -> Outcome<PathElement>
    decreases bindings, n,
{
    if n == 0 || n > shape_fields(kind).len() {
        done(default_shape(kind), st)
    } else {
        let before = build_spec(kind, bindings, (n - 1) as nat, ty, ctx, doc, st);
        let field = shape_fields(kind)[n - 1];
        let bound = last_index(bindings@, bindings.len() as nat, field_name(field));
        match before.result {
            Err(_) => before,
            Ok(shape) => if bound is Some && 0 <= bound->0 < bindings.len() {
                let next = eval_spec(bindings[bound->0].1, ty, ctx, doc, before.store);
                match next.result {
                    Err(e) => failed(e, next.store),
                    Ok(v) => match with_field(shape, field, v) {
                        None => failed(EvalError::IncompatibleField, next.store),
                        Some(changed) => done(changed, next.store),
                    },
                }
            } else {
                before
            },
        }
    }
}

/// The segment that a description of a path segment stands for.
pub open spec fn convert_path_element_spec(
    description: ExprPathElement,
    ty: ComponentDescription,
    ctx: EvaluationContext,
    doc: Document,
    st: StoreView,
) -> Outcome<PathElement>
    decreases description, 0nat,
{
    match shape_kind_of(description.class_name@) {
        None => failed(EvalError::UnsupportedPathElement, st),
        Some(kind) => build_spec(
            kind,
            description.bindings,
            shape_fields(kind).len(),
            ty,
            ctx,
            doc,
            st,
        ),
    }
}

/// The segments that the first `n` descriptions of a path stand for, in order.
pub open spec fn eval_path_spec(
    elements: Vec<ExprPathElement>,
    n: nat,
    ty: ComponentDescription,
    ctx: EvaluationContext,
    doc: Document,
    st: StoreView,
) -> Outcome<Seq<PathElement>>
    decreases elements, n,
{
    if n == 0 || n > elements.len() {
        done(Seq::empty(), st)
    } else {
        let before = eval_path_spec(elements, (n - 1) as nat, ty, ctx, doc, st);
        match before.result {
            Err(_) => before,
            Ok(path) => {
                let next = convert_path_element_spec(elements[n - 1], ty, ctx, doc, before.store);
                match next.result {
                    Err(e) => failed(e, next.store),
                    Ok(segment) => done(path.push(segment), next.store),
                }
            },
        }
    }
}


/// Once an expression of a list has failed, the rest of the list is not evaluated.
pub proof fn lemma_list_failure_persists(
    list: Vec<Expression>,
    k: nat,
    n: nat,
    ty: ComponentDescription,
    ctx: EvaluationContext,
    doc: Document,
    st: StoreView,
)
    requires
        k <= n <= list.len(),
        eval_list_spec(list, k, ty, ctx, doc, st).result is Err,
    ensures
        eval_list_spec(list, n, ty, ctx, doc, st) == eval_list_spec(list, k, ty, ctx, doc, st),
    decreases n,
{
    if k < n {
        lemma_list_failure_persists(list, k, (n - 1) as nat, ty, ctx, doc, st);
    }
}

/// Once an entry of an object expression has failed, the rest is not evaluated.
pub proof fn lemma_fields_failure_persists(
    entries: Vec<(String, Expression)>,
    k: nat,
    n: nat,
    ty: ComponentDescription,
    ctx: EvaluationContext,
    doc: Document,
    st: StoreView,
)
    requires
        k <= n <= entries.len(),
        eval_fields_spec(entries, k, ty, ctx, doc, st).result is Err,
    ensures
        eval_fields_spec(entries, n, ty, ctx, doc, st) == eval_fields_spec(
            entries,
            k,
            ty,
            ctx,
            doc,
            st,
        ),
    decreases n,
{
    if k < n {
        lemma_fields_failure_persists(entries, k, (n - 1) as nat, ty, ctx, doc, st);
    }
}

/// Once a field of a shape has failed, the rest of the fields are not set.
pub proof fn lemma_build_failure_persists(
    kind: ShapeKind,
    bindings: Vec<(String, Expression)>,
    k: nat,
    n: nat,
    ty: ComponentDescription,
    ctx: EvaluationContext,
    doc: Document,
    st: StoreView,
)
    requires
        k <= n <= shape_fields(kind).len(),
        build_spec(kind, bindings, k, ty, ctx, doc, st).result is Err,
    ensures
        build_spec(kind, bindings, n, ty, ctx, doc, st) == build_spec(
            kind,
            bindings,
            k,
            ty,
            ctx,
            doc,
            st,
        ),
    decreases n,
{
    if k < n {
        lemma_build_failure_persists(kind, bindings, k, (n - 1) as nat, ty, ctx, doc, st);
    }
}

/// Once a segment of a path has failed, the rest of the path is not evaluated.
pub proof fn lemma_path_failure_persists(
    elements: Vec<ExprPathElement>,
    k: nat,
    n: nat,
    ty: ComponentDescription,
    ctx: EvaluationContext,
    doc: Document,
    st: StoreView,
)
    requires
        k <= n <= elements.len(),
        eval_path_spec(elements, k, ty, ctx, doc, st).result is Err,
    ensures
        eval_path_spec(elements, n, ty, ctx, doc, st) == eval_path_spec(
            elements,
            k,
            ty,
            ctx,
            doc,
            st,
        ),
    decreases n,
{
    if k < n {
        lemma_path_failure_persists(elements, k, (n - 1) as nat, ty, ctx, doc, st);
    }
}


/// The context that lies `hops` steps out from a context, if the chain is that long.
pub open spec fn ancestor(ctx: EvaluationContext, hops: nat) -> Option<EvaluationContext>
    decreases hops,
{
    if hops == 0 {
        Some(ctx)
    } else {
        match ctx.parent_context {
            Some(parent) => ancestor(*parent, (hops - 1) as nat),
            None => None,
        }
    }
}

/// Whether the instance of a context is known, and of the type built from the
/// component that declares the element.
pub open spec fn owns(doc: Document, st: StoreView, element: usize, ctx: EvaluationContext) -> bool {
    &&& doc.knows_instance(st, ctx.component)
    &&& doc.tree.elements[element as int].enclosing_component == doc.type_of_instance(
        st,
        ctx.component,
    ).original
}

/// Resolution finds the nearest owner: where the context `hops` steps out owns
/// the element, and every context before it is of a known instance that does
/// not, the element resolves to that context, with its instance and its type,
/// and not to any context nearer to the leaf.
pub proof fn lemma_resolution_finds_nearest_owner(
    doc: Document,
    st: StoreView,
    element: usize,
    ctx: EvaluationContext,
    hops: nat,
)
    requires
        doc.tree.resolves(element),
        ancestor(ctx, hops) is Some,
        owns(doc, st, element, ancestor(ctx, hops)->0),
        forall|k: nat|
            k < hops ==> {
                &&& (#[trigger] ancestor(ctx, k)) is Some
                &&& doc.knows_instance(st, ancestor(ctx, k)->0.component)
                &&& !owns(doc, st, element, ancestor(ctx, k)->0)
            },
    ensures
        enclosing_component(doc, st, element, ctx) == Ok::<_, EvalError>(
            (
                ancestor(ctx, hops)->0.component,
                doc.type_of_instance(st, ancestor(ctx, hops)->0.component),
                ancestor(ctx, hops)->0,
            ),
        ),
    decreases hops,
{
    if hops > 0 {
        assert(ancestor(ctx, 0) is Some);
        let parent = *ctx.parent_context->0;
        assert forall|k: nat| k < hops - 1 implies {
            &&& (#[trigger] ancestor(parent, k)) is Some
            &&& doc.knows_instance(st, ancestor(parent, k)->0.component)
            &&& !owns(doc, st, element, ancestor(parent, k)->0)
        } by {
            assert(ancestor(ctx, k + 1) == ancestor(parent, k));
        }
        lemma_resolution_finds_nearest_owner(doc, st, element, parent, (hops - 1) as nat);
    }
}

/// Resolution without an owner fails: where no context of the chain owns the
/// element, the element resolves to nothing, and an error says so.
pub proof fn lemma_resolution_without_owner_fails(
    doc: Document,
    st: StoreView,
    element: usize,
    ctx: EvaluationContext,
)
    requires
        forall|k: nat|
            (#[trigger] ancestor(ctx, k)) is Some ==> !owns(doc, st, element, ancestor(ctx, k)->0),
    ensures
        enclosing_component(doc, st, element, ctx) is Err,
    decreases ctx,
{
    assert(ancestor(ctx, 0) is Some);
    if doc.tree.resolves(element) && doc.knows_instance(st, ctx.component) {
        match ctx.parent_context {
            Some(parent) => {
                assert forall|k: nat| (#[trigger] ancestor(*parent, k)) is Some implies !owns(
                    doc,
                    st,
                    element,
                    ancestor(*parent, k)->0,
                ) by {
                    assert(ancestor(ctx, k + 1) == ancestor(*parent, k));
                }
                lemma_resolution_without_owner_fails(doc, st, element, *parent);
            },
            None => {},
        }
    }
}


/// A write is read back: the slot that was written holds the value, and every
/// other slot holds what it held.
pub proof fn lemma_write_then_read(
    st: StoreView,
    component: usize,
    slot: int,
    value: ValueView,
    other_component: usize,
    other_slot: int,
)
    requires
        st.read(component, slot) is Some,
    ensures
        st.write(component, slot, value).read(component, slot) == Some(value),
        (other_component != component || other_slot != slot) ==> st.write(
            component,
            slot,
            value,
        ).read(other_component, other_slot) == st.read(other_component, other_slot),
{
}

/// A write moves nothing: every element resolves after it as before, and
/// every property lies where it lay.
pub proof fn lemma_write_keeps_locations(
    doc: Document,
    st: StoreView,
    component: usize,
    slot: int,
    value: ValueView,
    ctx: EvaluationContext,
    element: usize,
    name: Seq<char>,
)
    requires
        st.read(component, slot) is Some,
    ensures
        enclosing_component(doc, st.write(component, slot, value), element, ctx)
            == enclosing_component(doc, st, element, ctx),
        located_property(doc, st.write(component, slot, value), ctx, element, name)
            == located_property(doc, st, ctx, element, name),
    decreases ctx,
{
    match ctx.parent_context {
        Some(parent) => {
            lemma_write_keeps_locations(doc, st, component, slot, value, *parent, element, name);
        },
        None => {},
    }
}

/// An assignment is observed: once a self-assignment has written a value to a
/// property, a read of that property in the same context gives that value.
pub proof fn lemma_assigned_value_is_read(
    doc: Document,
    st: StoreView,
    ctx: EvaluationContext,
    element: usize,
    name: Seq<char>,
    value: ValueView,
)
    requires
        located_property(doc, st, ctx, element, name) is Ok,
        ({
            let (instance, item, prop) = located_property(doc, st, ctx, element, name)->Ok_0;
            store_assigned(st, element, instance, item, prop, value).result is Ok
        }),
    ensures
        ({
            let (instance, item, prop) = located_property(doc, st, ctx, element, name)->Ok_0;
            read_property(
                doc,
                store_assigned(st, element, instance, item, prop, value).store,
                ctx,
                element,
                name,
            ) == Ok::<ValueView, EvalError>(value)
        }),
{
    let (instance, item, prop) = located_property(doc, st, ctx, element, name)->Ok_0;
    let slot = item + prop.offset;
    lemma_write_keeps_locations(doc, st, instance, slot, value, ctx, element, name);
    lemma_write_then_read(st, instance, slot, value, instance, slot);
}


/// Whether a later store has the layout of an earlier one: the same
/// instances, each of the same type and with as many slots, and the earlier
/// emissions at the head of the later ones.
pub open spec fn keeps_layout(before: StoreView, after: StoreView) -> bool {
    &&& after.instances.len() == before.instances.len()
    &&& forall|i: int|
        0 <= i < before.instances.len() ==> {
            &&& (#[trigger] after.instances[i]).component_type
                == before.instances[i].component_type
            &&& after.instances[i].properties.len() == before.instances[i].properties.len()
        }
    &&& before.emitted.is_prefix_of(after.emitted)
}

/// A write keeps the layout.
pub proof fn lemma_write_keeps_layout(st: StoreView, component: usize, slot: int, value: ValueView)
    requires
        st.read(component, slot) is Some,
    ensures
        keeps_layout(st, st.write(component, slot, value)),
{
}

/// Layouts are kept step by step.
pub proof fn lemma_keeps_layout_transitive(a: StoreView, b: StoreView, c: StoreView)
    requires
        keeps_layout(a, b),
        keeps_layout(b, c),
    ensures
        keeps_layout(a, c),
{
    assert forall|i: int| 0 <= i < a.instances.len() implies {
        &&& (#[trigger] c.instances[i]).component_type == a.instances[i].component_type
        &&& c.instances[i].properties.len() == a.instances[i].properties.len()
    } by {
        assert(b.instances[i].component_type == a.instances[i].component_type);
    }
    assert forall|k: int| 0 <= k < a.emitted.len() implies a.emitted[k] == c.emitted[k] by {
        assert(a.emitted[k] == b.emitted[k]);
        assert(b.emitted[k] == c.emitted[k]);
    }
}

/// The store keeps its layout: whatever is evaluated, and whether or not it
/// fails, no instance comes or goes, none changes its type or the number of
/// its slots, and no emission is taken back.
pub proof fn lemma_evaluation_keeps_layout(
    e: Expression,
    ty: ComponentDescription,
    ctx: EvaluationContext,
    doc: Document,
    st: StoreView,
)
    ensures
        keeps_layout(st, eval_spec(e, ty, ctx, doc, st).store),
    decreases e, 0nat,
{
    match e {
        Expression::ObjectAccess { base, name } => {
            lemma_evaluation_keeps_layout(*base, ty, ctx, doc, st);
        },
        Expression::Cast { from, to } => {
            lemma_evaluation_keeps_layout(*from, ty, ctx, doc, st);
        },
        Expression::CodeBlock(sub) => {
            lemma_list_keeps_layout(sub, sub.len() as nat, ty, ctx, doc, st);
        },
        Expression::FunctionCall { function } => {},
        Expression::SelfAssignment { lhs, rhs, op } => {
            let after = eval_spec(*rhs, ty, ctx, doc, st);
            lemma_evaluation_keeps_layout(*rhs, ty, ctx, doc, st);
            if let Expression::PropertyReference(reference) = *lhs {
                let found = located_property(doc, st, ctx, reference.element, reference.name@);
                if found is Ok && after.result is Ok {
                    let (instance, item, prop) = found->Ok_0;
                    let slot = item + prop.offset;
                    let current = st.read(instance, slot);
                    if current is Some {
                        let value = apply_assignment(op, current->0, after.result->Ok_0);
                        if value is Ok && after.store.read(instance, slot) is Some {
                            lemma_write_keeps_layout(after.store, instance, slot, value->Ok_0);
                        }
                        lemma_keeps_layout_transitive(
                            st,
                            after.store,
                            eval_spec(e, ty, ctx, doc, st).store,
                        );
                    }
                }
            }
        },
        Expression::BinaryExpression { lhs, rhs, op } => {
            let after = eval_spec(*lhs, ty, ctx, doc, st).store;
            lemma_evaluation_keeps_layout(*lhs, ty, ctx, doc, st);
            lemma_evaluation_keeps_layout(*rhs, ty, ctx, doc, after);
            lemma_keeps_layout_transitive(st, after, eval_spec(e, ty, ctx, doc, st).store);
        },
        Expression::UnaryOp { sub, op } => {
            lemma_evaluation_keeps_layout(*sub, ty, ctx, doc, st);
        },
        Expression::Condition { condition, true_expr, false_expr } => {
            let after = eval_spec(*condition, ty, ctx, doc, st).store;
            lemma_evaluation_keeps_layout(*condition, ty, ctx, doc, st);
            lemma_evaluation_keeps_layout(*true_expr, ty, ctx, doc, after);
            lemma_evaluation_keeps_layout(*false_expr, ty, ctx, doc, after);
            lemma_keeps_layout_transitive(st, after, eval_spec(e, ty, ctx, doc, st).store);
        },
        Expression::Array { element_ty, values } => {
            lemma_list_keeps_layout(values, values.len() as nat, ty, ctx, doc, st);
        },
        Expression::Object { ty: _, values } => {
            lemma_fields_keep_layout(values, values.len() as nat, ty, ctx, doc, st);
        },
        Expression::PathElements { elements } => {
            lemma_path_keeps_layout(elements, elements.len() as nat, ty, ctx, doc, st);
        },
        _ => {},
    }
}

/// The store keeps its layout while a list is evaluated.
pub proof fn lemma_list_keeps_layout(
    list: Vec<Expression>,
    n: nat,
    ty: ComponentDescription,
    ctx: EvaluationContext,
    doc: Document,
    st: StoreView,
)
    ensures
        keeps_layout(st, eval_list_spec(list, n, ty, ctx, doc, st).store),
    decreases list, n,
{
    if !(n == 0 || n > list.len()) {
        let before = eval_list_spec(list, (n - 1) as nat, ty, ctx, doc, st);
        lemma_list_keeps_layout(list, (n - 1) as nat, ty, ctx, doc, st);
        if before.result is Ok {
            lemma_evaluation_keeps_layout(list[n - 1], ty, ctx, doc, before.store);
            lemma_keeps_layout_transitive(
                st,
                before.store,
                eval_list_spec(list, n, ty, ctx, doc, st).store,
            );
        }
    }
}

/// The store keeps its layout while the fields of an object are evaluated.
pub proof fn lemma_fields_keep_layout(
    entries: Vec<(String, Expression)>,
    n: nat,
    ty: ComponentDescription,
    ctx: EvaluationContext,
    doc: Document,
    st: StoreView,
)
    ensures
        keeps_layout(st, eval_fields_spec(entries, n, ty, ctx, doc, st).store),
    decreases entries, n,
{
    if !(n == 0 || n > entries.len()) {
        let before = eval_fields_spec(entries, (n - 1) as nat, ty, ctx, doc, st);
        lemma_fields_keep_layout(entries, (n - 1) as nat, ty, ctx, doc, st);
        if before.result is Ok {
            lemma_evaluation_keeps_layout(entries[n - 1].1, ty, ctx, doc, before.store);
            lemma_keeps_layout_transitive(
                st,
                before.store,
                eval_fields_spec(entries, n, ty, ctx, doc, st).store,
            );
        }
    }
}

/// The store keeps its layout while a shape is made.
pub proof fn lemma_build_keeps_layout(
    kind: ShapeKind,
    bindings: Vec<(String, Expression)>,
    n: nat,
    ty: ComponentDescription,
    ctx: EvaluationContext,
    doc: Document,
    st: StoreView,
)
    ensures
        keeps_layout(st, build_spec(kind, bindings, n, ty, ctx, doc, st).store),
    decreases bindings, n,
{
    if !(n == 0 || n > shape_fields(kind).len()) {
        let before = build_spec(kind, bindings, (n - 1) as nat, ty, ctx, doc, st);
        let bound = last_index(
            bindings@,
            bindings.len() as nat,
            field_name(shape_fields(kind)[n - 1]),
        );
        lemma_build_keeps_layout(kind, bindings, (n - 1) as nat, ty, ctx, doc, st);
        if before.result is Ok && bound is Some && 0 <= bound->0 < bindings.len() {
            lemma_evaluation_keeps_layout(bindings[bound->0].1, ty, ctx, doc, before.store);
            lemma_keeps_layout_transitive(
                st,
                before.store,
                build_spec(kind, bindings, n, ty, ctx, doc, st).store,
            );
        }
    }
}

/// The store keeps its layout while a path is made.
pub proof fn lemma_path_keeps_layout(
    elements: Vec<ExprPathElement>,
    n: nat,
    ty: ComponentDescription,
    ctx: EvaluationContext,
    doc: Document,
    st: StoreView,
)
    ensures
        keeps_layout(st, eval_path_spec(elements, n, ty, ctx, doc, st).store),
    decreases elements, n,
{
    if !(n == 0 || n > elements.len()) {
        let before = eval_path_spec(elements, (n - 1) as nat, ty, ctx, doc, st);
        lemma_path_keeps_layout(elements, (n - 1) as nat, ty, ctx, doc, st);
        if before.result is Ok {
            let description = elements[n - 1];
            let next = convert_path_element_spec(description, ty, ctx, doc, before.store);
            match shape_kind_of(description.class_name@) {
                Some(kind) => {
                    lemma_build_keeps_layout(
                        kind,
                        description.bindings,
                        shape_fields(kind).len(),
                        ty,
                        ctx,
                        doc,
                        before.store,
                    );
                    assert(next == build_spec(
                        kind,
                        description.bindings,
                        shape_fields(kind).len(),
                        ty,
                        ctx,
                        doc,
                        before.store,
                    ));
                },
                None => {
                    assert(next.store == before.store);
                },
            }
            assert(keeps_layout(before.store, next.store));
            lemma_keeps_layout_transitive(
                st,
                before.store,
                eval_path_spec(elements, n, ty, ctx, doc, st).store,
            );
        }
    }
}

} // verus!
