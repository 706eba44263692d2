use sixtyfps_eval::component::{
    Component, ComponentDescription, ComponentInstance, Document, Element, ElementTree,
    EvaluationContext, InstanceStore, ItemRTTI, ItemWithinComponent, PropertiesWithinComponent,
    PropertyInfo, SignalEmission,
};
use sixtyfps_eval::error::EvalError;
use sixtyfps_eval::eval::{
    access_field, assignment_operation, binary_operation, cast_value, convert_path_element,
    eval_expression, new_struct_with_bindings, unary_operation,
};
use sixtyfps_eval::expression::{ExprPathElement, Expression, NamedReference, Type};
use sixtyfps_eval::number::Number;
use sixtyfps_eval::shape::ShapeKind;
use sixtyfps_eval::value::{
    Color, PathArcTo, PathElement, PathLineTo, Resource, Value, ValueKind,
};

fn num(x: f64) -> Number {
    Number::from_bits(x.to_bits())
}

fn number(x: f64) -> Expression {
    Expression::NumberLiteral(num(x))
}

fn boxed(e: Expression) -> Box<Expression> {
    Box::new(e)
}

fn s(text: &str) -> String {
    text.to_string()
}

fn prop(offset: usize, kind: ValueKind) -> PropertyInfo {
    PropertyInfo { offset, kind }
}

/// Elements: 0 `root` and 1 `rect` of component 0; 2 `row` of component 0, built
/// from component 1; 3 `cell` (the root) and 4 `label` of component 1.
fn document() -> Document {
    let element = |id: &str, base_type: Type, enclosing_component: usize| Element {
        id: s(id),
        base_type,
        enclosing_component,
    };
    Document {
        tree: ElementTree {
            elements: vec![
                element("root", Type::Builtin, 0),
                element("rect", Type::Builtin, 0),
                element("row", Type::Component(1), 0),
                element("cell", Type::Builtin, 1),
                element("label", Type::Builtin, 1),
            ],
            components: vec![
                Component { root_element: 0, parent_element: None },
                Component { root_element: 3, parent_element: Some(2) },
            ],
        },
        component_types: vec![
            ComponentDescription {
                original: 0,
                custom_properties: vec![
                    (
                        s("count"),
                        PropertiesWithinComponent { offset: 0, prop: prop(0, ValueKind::Number) },
                    ),
                    (
                        s("title"),
                        PropertiesWithinComponent { offset: 1, prop: prop(0, ValueKind::String) },
                    ),
                ],
                items: vec![
                    (
                        s("root"),
                        ItemWithinComponent {
                            offset: 2,
                            rtti: ItemRTTI {
                                properties: vec![
                                    (s("width"), prop(0, ValueKind::Number)),
                                    (s("count"), prop(1, ValueKind::Number)),
                                ],
                                signals: vec![(s("clicked"), 7)],
                            },
                        },
                    ),
                    (
                        s("rect"),
                        ItemWithinComponent {
                            offset: 4,
                            rtti: ItemRTTI {
                                properties: vec![
                                    (s("x"), prop(0, ValueKind::Number)),
                                    (s("color"), prop(1, ValueKind::Color)),
                                    (s("beyond"), prop(100, ValueKind::Number)),
                                ],
                                signals: vec![(s("pressed"), 3), (s("far"), usize::MAX)],
                            },
                        },
                    ),
                ],
                custom_signals: vec![(s("activated"), 40), (s("pressed"), 41)],
            },
            ComponentDescription {
                original: 1,
                custom_properties: vec![
                    (
                        s("index"),
                        PropertiesWithinComponent { offset: 0, prop: prop(0, ValueKind::Number) },
                    ),
                    (
                        s("model_data"),
                        PropertiesWithinComponent { offset: 0, prop: prop(1, ValueKind::String) },
                    ),
                ],
                items: vec![
                    (
                        s("cell"),
                        ItemWithinComponent {
                            offset: 2,
                            rtti: ItemRTTI {
                                properties: vec![(s("height"), prop(0, ValueKind::Number))],
                                signals: vec![],
                            },
                        },
                    ),
                    (
                        s("label"),
                        ItemWithinComponent {
                            offset: 3,
                            rtti: ItemRTTI {
                                properties: vec![(s("text"), prop(0, ValueKind::String))],
                                signals: vec![],
                            },
                        },
                    ),
                ],
                custom_signals: vec![],
            },
        ],
    }
}

/// Instance 0 is of component 0, and instance 1, nested in it, of component 1.
fn store() -> InstanceStore {
    InstanceStore {
        instances: vec![
            ComponentInstance {
                component_type: 0,
                properties: vec![
                    Value::Number(num(10.0)),
                    Value::String(s("hello")),
                    Value::Number(num(640.0)),
                    Value::Number(num(99.0)),
                    Value::Number(num(12.0)),
                    Value::Color(Color { red: 1, green: 2, blue: 3, alpha: 4 }),
                ],
            },
            ComponentInstance {
                component_type: 1,
                properties: vec![
                    Value::Number(num(3.0)),
                    Value::String(s("third")),
                    Value::Number(num(20.0)),
                    Value::String(s("caption")),
                ],
            },
        ],
        emitted: vec![],
    }
}

fn outer() -> EvaluationContext {
    EvaluationContext { component: 0, parent_context: None }
}

fn inner() -> EvaluationContext {
    EvaluationContext { component: 1, parent_context: Some(Box::new(outer())) }
}

fn property(element: usize, name: &str) -> Expression {
    Expression::PropertyReference(NamedReference { element, name: s(name) })
}

fn signal(element: usize, name: &str) -> Expression {
    Expression::SignalReference(NamedReference { element, name: s(name) })
}

fn call(function: Expression) -> Expression {
    Expression::FunctionCall { function: boxed(function) }
}

fn binary(lhs: Expression, op: char, rhs: Expression) -> Expression {
    Expression::BinaryExpression { lhs: boxed(lhs), rhs: boxed(rhs), op }
}

fn assign(lhs: Expression, op: char, rhs: Expression) -> Expression {
    Expression::SelfAssignment { lhs: boxed(lhs), rhs: boxed(rhs), op }
}

/// Evaluates in the outer context, on a fresh store.
fn eval(e: &Expression) -> Result<Value, EvalError> {
    let document = document();
    let mut store = store();
    eval_expression(e, &document.component_types[0], &outer(), &document, &mut store)
}

/// Evaluates in the inner context, on the given store.
fn eval_inner(e: &Expression, store: &mut InstanceStore) -> Result<Value, EvalError> {
    let document = document();
    eval_expression(e, &document.component_types[1], &inner(), &document, store)
}

#[test]
fn number_literal_evaluates_to_itself() {
    assert_eq!(eval(&number(5.0)), Ok(Value::Number(num(5.0))));
}

#[test]
fn string_literal_evaluates_to_itself() {
    assert_eq!(eval(&Expression::StringLiteral(s("hi"))), Ok(Value::String(s("hi"))));
}

#[test]
fn bool_literal_evaluates_to_itself() {
    assert_eq!(eval(&Expression::BoolLiteral(true)), Ok(Value::Bool(true)));
}

#[test]
fn placeholders_are_errors() {
    assert_eq!(eval(&Expression::Invalid), Err(EvalError::InvalidExpression));
    assert_eq!(eval(&Expression::Uncompiled), Err(EvalError::UncompiledExpression));
    assert_eq!(eval(&signal(0, "clicked")), Err(EvalError::SignalInExpression));
}

#[test]
fn cast_to_integer_rounds() {
    let e = Expression::Cast { from: boxed(number(3.7)), to: Type::Int32 };
    assert_eq!(eval(&e), Ok(Value::Number(num(4.0))));
}

#[test]
fn cast_to_color_unpacks_the_bits() {
    let e = Expression::Cast { from: boxed(number(255.0)), to: Type::Color };
    assert_eq!(eval(&e), Ok(Value::Color(Color { red: 0, green: 0, blue: 255, alpha: 0 })));
    let e = Expression::Cast { from: boxed(number(4278255360.0)), to: Type::Color };
    assert_eq!(eval(&e), Ok(Value::Color(Color { red: 0, green: 255, blue: 0, alpha: 255 })));
    assert_eq!(
        Color::from_argb_encoded(0x11223344),
        Color { red: 0x22, green: 0x33, blue: 0x44, alpha: 0x11 }
    );
}

#[test]
fn cast_to_string_writes_the_number() {
    let e = Expression::Cast { from: boxed(number(42.0)), to: Type::String };
    assert_eq!(eval(&e), Ok(Value::String(s("42"))));
    let e = Expression::Cast { from: boxed(number(0.5)), to: Type::String };
    assert_eq!(eval(&e), Ok(Value::String(s("0.5"))));
}

#[test]
fn other_casts_pass_the_value_through() {
    assert_eq!(cast_value(Value::Number(num(3.7)), Type::Float32), Value::Number(num(3.7)));
    assert_eq!(cast_value(Value::Bool(true), Type::Int32), Value::Bool(true));
    assert_eq!(cast_value(Value::String(s("x")), Type::Color), Value::String(s("x")));
    assert_eq!(cast_value(Value::Void, Type::String), Value::Void);
}

#[test]
fn binary_arithmetic_on_numbers() {
    assert_eq!(eval(&binary(number(2.0), '+', number(3.0))), Ok(Value::Number(num(5.0))));
    assert_eq!(eval(&binary(number(2.0), '-', number(3.0))), Ok(Value::Number(num(-1.0))));
    assert_eq!(eval(&binary(number(2.0), '*', number(3.0))), Ok(Value::Number(num(6.0))));
    assert_eq!(eval(&binary(number(3.0), '/', number(2.0))), Ok(Value::Number(num(1.5))));
}

#[test]
fn binary_ordering_on_numbers() {
    assert_eq!(eval(&binary(number(2.0), '<', number(3.0))), Ok(Value::Bool(true)));
    assert_eq!(eval(&binary(number(2.0), '>', number(3.0))), Ok(Value::Bool(false)));
    assert_eq!(eval(&binary(number(3.0), '\u{2264}', number(3.0))), Ok(Value::Bool(true)));
    assert_eq!(eval(&binary(number(2.0), '\u{2265}', number(3.0))), Ok(Value::Bool(false)));
    assert_eq!(eval(&binary(number(3.0), '≥', number(3.0))), Ok(Value::Bool(true)));
    assert_eq!(eval(&binary(number(4.0), '≤', number(3.0))), Ok(Value::Bool(false)));
}

#[test]
fn binary_logic_on_truth_values() {
    let t = || Expression::BoolLiteral(true);
    let f = || Expression::BoolLiteral(false);
    assert_eq!(eval(&binary(t(), '&', f())), Ok(Value::Bool(false)));
    assert_eq!(eval(&binary(t(), '&', t())), Ok(Value::Bool(true)));
    assert_eq!(eval(&binary(t(), '|', f())), Ok(Value::Bool(true)));
    assert_eq!(eval(&binary(f(), '|', f())), Ok(Value::Bool(false)));
}

#[test]
fn binary_equality_on_any_pair() {
    assert_eq!(eval(&binary(number(2.0), '=', number(2.0))), Ok(Value::Bool(true)));
    assert_eq!(eval(&binary(number(2.0), '!', number(2.0))), Ok(Value::Bool(false)));
    let hi = || Expression::StringLiteral(s("hi"));
    assert_eq!(eval(&binary(hi(), '=', hi())), Ok(Value::Bool(true)));
    assert_eq!(eval(&binary(hi(), '=', number(1.0))), Ok(Value::Bool(false)));
    assert_eq!(eval(&binary(hi(), '!', number(1.0))), Ok(Value::Bool(true)));
    assert_eq!(
        binary_operation('=', &Value::Number(num(f64::NAN)), &Value::Number(num(f64::NAN))),
        Ok(Value::Bool(false))
    );
}

#[test]
fn binary_operators_refuse_other_operands() {
    let hi = || Expression::StringLiteral(s("hi"));
    assert_eq!(
        eval(&binary(hi(), '+', number(1.0))),
        Err(EvalError::UnsupportedOperation { op: '+' })
    );
    assert_eq!(
        eval(&binary(number(1.0), '&', number(1.0))),
        Err(EvalError::UnsupportedOperation { op: '&' })
    );
    assert_eq!(
        eval(&binary(Expression::BoolLiteral(true), '<', Expression::BoolLiteral(true))),
        Err(EvalError::UnsupportedOperation { op: '<' })
    );
    assert_eq!(
        eval(&binary(number(1.0), '%', number(1.0))),
        Err(EvalError::UnsupportedOperation { op: '%' })
    );
}

#[test]
fn binary_operands_are_evaluated_left_to_right() {
    let e = binary(Expression::Invalid, '+', Expression::Uncompiled);
    assert_eq!(eval(&e), Err(EvalError::InvalidExpression));
    let e = binary(number(1.0), '+', Expression::Uncompiled);
    assert_eq!(eval(&e), Err(EvalError::UncompiledExpression));
    // `count -= 3` runs before `count` is read on the right.
    let e = binary(assign(property(0, "count"), '-', number(3.0)), '=', property(0, "count"));
    assert_eq!(
        eval(&Expression::CodeBlock(vec![e, property(0, "count")])),
        Ok(Value::Number(num(7.0)))
    );
}

#[test]
fn unary_operators() {
    let unary = |op: char, sub: Expression| Expression::UnaryOp { sub: boxed(sub), op };
    assert_eq!(eval(&unary('+', number(2.0))), Ok(Value::Number(num(2.0))));
    assert_eq!(eval(&unary('-', number(2.0))), Ok(Value::Number(num(-2.0))));
    assert_eq!(eval(&unary('!', Expression::BoolLiteral(true))), Ok(Value::Bool(false)));
    assert_eq!(
        eval(&unary('!', number(2.0))),
        Err(EvalError::UnsupportedOperation { op: '!' })
    );
    assert_eq!(
        eval(&unary('-', Expression::BoolLiteral(true))),
        Err(EvalError::UnsupportedOperation { op: '-' })
    );
    assert_eq!(
        unary_operation('-', &Value::Void),
        Err(EvalError::UnsupportedOperation { op: '-' })
    );
}

#[test]
fn self_assignment_writes_the_property_back() {
    let document = document();
    let mut store = store();
    let e = assign(property(0, "count"), '-', number(3.0));
    let r = eval_expression(&e, &document.component_types[0], &outer(), &document, &mut store);
    assert_eq!(r, Ok(Value::Void));
    assert_eq!(store.instances[0].properties[0], Value::Number(num(7.0)));
    let read =
        eval_expression(&property(0, "count"), &document.component_types[0], &outer(), &document, &mut store);
    assert_eq!(read, Ok(Value::Number(num(7.0))));
}

#[test]
fn self_assignment_with_each_operator() {
    for (op, expected) in [('+', 13.0), ('-', 7.0), ('*', 30.0), ('/', 10.0 / 3.0)] {
        let document = document();
        let mut store = store();
        let e = assign(property(0, "count"), op, number(3.0));
        let r = eval_expression(&e, &document.component_types[0], &outer(), &document, &mut store);
        assert_eq!(r, Ok(Value::Void));
        assert_eq!(store.instances[0].properties[0], Value::Number(num(expected)));
    }
}

#[test]
fn self_assignment_to_an_item_property() {
    let document = document();
    let mut store = store();
    let e = assign(property(1, "x"), '*', number(2.0));
    let r = eval_expression(&e, &document.component_types[0], &outer(), &document, &mut store);
    assert_eq!(r, Ok(Value::Void));
    assert_eq!(store.instances[0].properties[4], Value::Number(num(24.0)));
}

#[test]
fn self_assignment_reads_the_property_before_the_right_hand_side() {
    // count -= (count -= 3): the outer assignment took 10 before the inner one wrote 7.
    let document = document();
    let mut store = store();
    let inner = Expression::CodeBlock(vec![
        assign(property(0, "count"), '-', number(3.0)),
        property(0, "count"),
    ]);
    let e = assign(property(0, "count"), '-', inner);
    let r = eval_expression(&e, &document.component_types[0], &outer(), &document, &mut store);
    assert_eq!(r, Ok(Value::Void));
    assert_eq!(store.instances[0].properties[0], Value::Number(num(3.0)));
}

#[test]
fn self_assignment_refuses_what_is_no_property() {
    assert_eq!(eval(&assign(number(1.0), '+', number(1.0))), Err(EvalError::NotAProperty));
    // The right-hand side is not evaluated.
    assert_eq!(eval(&assign(number(1.0), '+', Expression::Invalid)), Err(EvalError::NotAProperty));
}

#[test]
fn self_assignment_refuses_other_operands() {
    assert_eq!(
        eval(&assign(property(0, "title"), '+', number(1.0))),
        Err(EvalError::UnsupportedOperation { op: '+' })
    );
    assert_eq!(
        eval(&assign(property(0, "count"), '+', Expression::BoolLiteral(true))),
        Err(EvalError::UnsupportedOperation { op: '+' })
    );
    assert_eq!(
        eval(&assign(property(0, "count"), '<', number(1.0))),
        Err(EvalError::UnsupportedOperation { op: '<' })
    );
    assert_eq!(
        assignment_operation('=', &Value::Number(num(1.0)), &Value::Number(num(1.0))),
        Err(EvalError::UnsupportedOperation { op: '=' })
    );
}

#[test]
fn a_failed_self_assignment_leaves_the_property_as_it_was() {
    let document = document();
    let mut store = store();
    let e = assign(property(0, "count"), '+', Expression::BoolLiteral(true));
    let r = eval_expression(&e, &document.component_types[0], &outer(), &document, &mut store);
    assert!(r.is_err());
    assert_eq!(store.instances[0].properties[0], Value::Number(num(10.0)));
}

#[test]
fn conditional_takes_the_branch_of_the_condition() {
    let cond = |c: Expression| Expression::Condition {
        condition: boxed(c),
        true_expr: boxed(number(1.0)),
        false_expr: boxed(number(2.0)),
    };
    assert_eq!(eval(&cond(Expression::BoolLiteral(true))), Ok(Value::Number(num(1.0))));
    assert_eq!(eval(&cond(Expression::BoolLiteral(false))), Ok(Value::Number(num(2.0))));
    assert_eq!(eval(&cond(number(1.0))), Err(EvalError::ConditionNotBoolean));
    assert_eq!(eval(&cond(Expression::Invalid)), Err(EvalError::InvalidExpression));
}

#[test]
fn conditional_evaluates_only_the_branch_taken() {
    let e = Expression::Condition {
        condition: boxed(Expression::BoolLiteral(true)),
        true_expr: boxed(number(1.0)),
        false_expr: boxed(Expression::Invalid),
    };
    assert_eq!(eval(&e), Ok(Value::Number(num(1.0))));
}

fn ab_object() -> Expression {
    Expression::Object {
        ty: Type::Object,
        values: vec![(s("a"), number(1.0)), (s("b"), number(2.0))],
    }
}

#[test]
fn object_access_yields_the_field() {
    let access = |name: &str| Expression::ObjectAccess { base: boxed(ab_object()), name: s(name) };
    assert_eq!(eval(&access("a")), Ok(Value::Number(num(1.0))));
    assert_eq!(eval(&access("b")), Ok(Value::Number(num(2.0))));
    assert_eq!(eval(&access("c")), Ok(Value::Void));
}

#[test]
fn object_access_on_what_is_no_object_is_void() {
    let e = Expression::ObjectAccess { base: boxed(number(1.0)), name: s("a") };
    assert_eq!(eval(&e), Ok(Value::Void));
    assert_eq!(access_field(&Value::Bool(true), &s("a")), Value::Void);
}

#[test]
fn object_access_takes_the_later_of_two_entries() {
    let object = Value::Object(vec![
        (s("a"), Value::Number(num(1.0))),
        (s("a"), Value::Number(num(2.0))),
    ]);
    assert_eq!(access_field(&object, &s("a")), Value::Number(num(2.0)));
}

#[test]
fn object_literal_collects_its_fields() {
    assert_eq!(
        eval(&ab_object()),
        Ok(Value::Object(vec![
            (s("b"), Value::Number(num(2.0))),
            (s("a"), Value::Number(num(1.0))),
        ]))
    );
    let failing = Expression::Object {
        ty: Type::Object,
        values: vec![(s("a"), number(1.0)), (s("b"), Expression::Invalid)],
    };
    assert_eq!(eval(&failing), Err(EvalError::InvalidExpression));
}

#[test]
fn array_literal_keeps_the_order() {
    let e = Expression::Array {
        element_ty: Type::Float32,
        values: vec![number(3.0), number(1.0), number(2.0)],
    };
    assert_eq!(
        eval(&e),
        Ok(Value::Array(vec![
            Value::Number(num(3.0)),
            Value::Number(num(1.0)),
            Value::Number(num(2.0)),
        ]))
    );
    let empty = Expression::Array { element_ty: Type::Float32, values: vec![] };
    assert_eq!(eval(&empty), Ok(Value::Array(vec![])));
    let failing =
        Expression::Array { element_ty: Type::Float32, values: vec![number(3.0), Expression::Invalid] };
    assert_eq!(eval(&failing), Err(EvalError::InvalidExpression));
}

#[test]
fn code_block_yields_its_last_value() {
    let e = Expression::CodeBlock(vec![number(1.0), Expression::StringLiteral(s("last"))]);
    assert_eq!(eval(&e), Ok(Value::String(s("last"))));
    assert_eq!(eval(&Expression::CodeBlock(vec![])), Ok(Value::Void));
    let failing = Expression::CodeBlock(vec![Expression::Invalid, number(1.0)]);
    assert_eq!(eval(&failing), Err(EvalError::InvalidExpression));
}

#[test]
fn code_block_stops_at_the_first_failure() {
    let document = document();
    let mut store = store();
    let e = Expression::CodeBlock(vec![
        assign(property(0, "count"), '+', number(1.0)),
        Expression::Invalid,
        assign(property(0, "count"), '+', number(1.0)),
    ]);
    let r = eval_expression(&e, &document.component_types[0], &outer(), &document, &mut store);
    assert_eq!(r, Err(EvalError::InvalidExpression));
    assert_eq!(store.instances[0].properties[0], Value::Number(num(11.0)));
}

#[test]
fn resource_reference_wraps_the_path() {
    let e = Expression::ResourceReference { absolute_source_path: s("/tmp/image.png") };
    assert_eq!(eval(&e), Ok(Value::Resource(Resource::AbsoluteFilePath(s("/tmp/image.png")))));
}

#[test]
fn property_reference_reads_a_custom_property_of_the_root() {
    assert_eq!(eval(&property(0, "count")), Ok(Value::Number(num(10.0))));
    assert_eq!(eval(&property(0, "title")), Ok(Value::String(s("hello"))));
}

#[test]
fn property_reference_reads_an_item_property() {
    assert_eq!(eval(&property(0, "width")), Ok(Value::Number(num(640.0))));
    assert_eq!(eval(&property(1, "x")), Ok(Value::Number(num(12.0))));
    assert_eq!(
        eval(&property(1, "color")),
        Ok(Value::Color(Color { red: 1, green: 2, blue: 3, alpha: 4 }))
    );
}

#[test]
fn custom_property_of_the_root_comes_before_the_item_property() {
    // `count` is both a custom property (slot 0) and a property of the root item (slot 3).
    assert_eq!(eval(&property(0, "count")), Ok(Value::Number(num(10.0))));
}

#[test]
fn custom_properties_belong_to_the_root_element_only() {
    assert_eq!(eval(&property(1, "title")), Err(EvalError::UnknownProperty { element: 1 }));
}

#[test]
fn property_reference_failures() {
    assert_eq!(eval(&property(9, "x")), Err(EvalError::UnresolvedElement { element: 9 }));
    assert_eq!(eval(&property(2, "x")), Err(EvalError::UnknownItem { element: 2 }));
    assert_eq!(eval(&property(1, "missing")), Err(EvalError::UnknownProperty { element: 1 }));
    assert_eq!(eval(&property(1, "beyond")), Err(EvalError::InvalidOffset { element: 1 }));
    assert_eq!(eval(&property(3, "height")), Err(EvalError::NoEnclosingComponent { element: 3 }));
}

#[test]
fn property_reference_walks_out_to_the_owning_instance() {
    let mut store = store();
    assert_eq!(eval_inner(&property(3, "height"), &mut store), Ok(Value::Number(num(20.0))));
    assert_eq!(eval_inner(&property(4, "text"), &mut store), Ok(Value::String(s("caption"))));
    // Element 1 belongs to the outer component: its value comes from instance 0.
    assert_eq!(eval_inner(&property(1, "x"), &mut store), Ok(Value::Number(num(12.0))));
    assert_eq!(eval_inner(&property(0, "count"), &mut store), Ok(Value::Number(num(10.0))));
}

#[test]
fn self_assignment_walks_out_to_the_owning_instance() {
    let mut store = store();
    let e = assign(property(0, "count"), '+', property(3, "height"));
    assert_eq!(eval_inner(&e, &mut store), Ok(Value::Void));
    assert_eq!(store.instances[0].properties[0], Value::Number(num(30.0)));
    assert_eq!(store.instances[1].properties[0], Value::Number(num(3.0)));
}

#[test]
fn writing_a_value_of_another_kind_is_refused() {
    let document = Document {
        tree: document().tree,
        component_types: vec![ComponentDescription {
            original: 0,
            custom_properties: vec![(
                s("count"),
                PropertiesWithinComponent { offset: 0, prop: prop(0, ValueKind::String) },
            )],
            items: vec![],
            custom_signals: vec![],
        }],
    };
    let mut store = store();
    let e = assign(property(0, "count"), '+', number(1.0));
    let r = eval_expression(&e, &document.component_types[0], &outer(), &document, &mut store);
    assert_eq!(r, Err(EvalError::IncompatibleValue { element: 0 }));
    assert_eq!(store.instances[0].properties[0], Value::Number(num(10.0)));
}

#[test]
fn repeater_references_read_the_current_instance() {
    let mut store = store();
    let index = Expression::RepeaterIndexReference { element: 2 };
    let model = Expression::RepeaterModelReference { element: 2 };
    assert_eq!(eval_inner(&index, &mut store), Ok(Value::Number(num(3.0))));
    assert_eq!(eval_inner(&model, &mut store), Ok(Value::String(s("third"))));
}

#[test]
fn repeater_references_to_another_component_are_refused() {
    let mut store = store();
    let index = Expression::RepeaterIndexReference { element: 1 };
    assert_eq!(
        eval_inner(&index, &mut store),
        Err(EvalError::UnsupportedRepeaterReference { element: 1 })
    );
    let model = Expression::RepeaterModelReference { element: 2 };
    assert_eq!(eval(&model), Err(EvalError::UnsupportedRepeaterReference { element: 2 }));
    let dangling = Expression::RepeaterIndexReference { element: 77 };
    assert_eq!(
        eval_inner(&dangling, &mut store),
        Err(EvalError::UnresolvedElement { element: 77 })
    );
}

#[test]
fn repeater_reference_without_the_property() {
    let document = Document {
        tree: document().tree,
        component_types: vec![
            ComponentDescription {
                original: 1,
                custom_properties: vec![],
                items: vec![],
                custom_signals: vec![],
            },
        ],
    };
    let mut store = store();
    let index = Expression::RepeaterIndexReference { element: 2 };
    let r = eval_expression(&index, &document.component_types[0], &outer(), &document, &mut store);
    assert_eq!(r, Err(EvalError::UnknownProperty { element: 2 }));
}

#[test]
fn calling_a_signal_records_the_emission() {
    let document = document();
    let mut store = store();
    let r = eval_expression(
        &call(signal(0, "clicked")),
        &document.component_types[0],
        &outer(),
        &document,
        &mut store,
    );
    assert_eq!(r, Ok(Value::Void));
    assert_eq!(store.emitted, vec![SignalEmission { component: 0, signal: 9 }]);
    let r = eval_expression(
        &call(signal(0, "activated")),
        &document.component_types[0],
        &outer(),
        &document,
        &mut store,
    );
    assert_eq!(r, Ok(Value::Void));
    assert_eq!(
        store.emitted,
        vec![
            SignalEmission { component: 0, signal: 9 },
            SignalEmission { component: 0, signal: 40 },
        ]
    );
}

#[test]
fn a_signal_of_the_item_comes_before_one_of_the_component() {
    let document = document();
    let mut store = store();
    let r = eval_expression(
        &call(signal(1, "pressed")),
        &document.component_types[0],
        &outer(),
        &document,
        &mut store,
    );
    assert_eq!(r, Ok(Value::Void));
    assert_eq!(store.emitted, vec![SignalEmission { component: 0, signal: 7 }]);
}

#[test]
fn a_signal_is_emitted_on_the_owning_instance() {
    let mut store = store();
    assert_eq!(eval_inner(&call(signal(1, "activated")), &mut store), Ok(Value::Void));
    assert_eq!(store.emitted, vec![SignalEmission { component: 0, signal: 40 }]);
}

#[test]
fn call_failures() {
    assert_eq!(eval(&call(number(1.0))), Err(EvalError::NotASignal));
    assert_eq!(eval(&call(property(0, "count"))), Err(EvalError::NotASignal));
    assert_eq!(eval(&call(signal(0, "missing"))), Err(EvalError::UnknownSignal { element: 0 }));
    assert_eq!(eval(&call(signal(2, "clicked"))), Err(EvalError::UnknownItem { element: 2 }));
    assert_eq!(eval(&call(signal(8, "clicked"))), Err(EvalError::UnresolvedElement { element: 8 }));
    assert_eq!(eval(&call(signal(1, "far"))), Err(EvalError::InvalidOffset { element: 1 }));
    assert_eq!(
        eval(&call(signal(4, "clicked"))),
        Err(EvalError::NoEnclosingComponent { element: 4 })
    );
}

#[test]
fn an_instance_that_the_store_lacks() {
    let document = document();
    let mut store = store();
    let context = EvaluationContext { component: 5, parent_context: None };
    let r = eval_expression(
        &property(0, "count"),
        &document.component_types[0],
        &context,
        &document,
        &mut store,
    );
    assert_eq!(r, Err(EvalError::UnknownInstance { component: 5 }));
}

fn line_to() -> ExprPathElement {
    ExprPathElement {
        class_name: s("LineTo"),
        bindings: vec![(s("x"), number(1.0)), (s("y"), number(2.0))],
    }
}

fn arc_to() -> ExprPathElement {
    ExprPathElement {
        class_name: s("ArcTo"),
        bindings: vec![
            (s("sweep"), Expression::BoolLiteral(true)),
            (s("radius_x"), number(5.0)),
            (s("x"), number(3.0)),
        ],
    }
}

fn arc(x: f64, radius_x: f64, sweep: bool) -> PathElement {
    PathElement::ArcTo(PathArcTo {
        x: num(x),
        y: num(0.0),
        radius_x: num(radius_x),
        radius_y: num(0.0),
        x_rotation: num(0.0),
        large_arc: false,
        sweep,
    })
}

#[test]
fn path_elements_keep_the_declared_order() {
    let e = Expression::PathElements { elements: vec![line_to(), arc_to()] };
    assert_eq!(
        eval(&e),
        Ok(Value::PathElements(vec![
            PathElement::LineTo(PathLineTo { x: num(1.0), y: num(2.0) }),
            arc(3.0, 5.0, true),
        ]))
    );
    let e = Expression::PathElements { elements: vec![arc_to(), line_to()] };
    assert_eq!(
        eval(&e),
        Ok(Value::PathElements(vec![
            arc(3.0, 5.0, true),
            PathElement::LineTo(PathLineTo { x: num(1.0), y: num(2.0) }),
        ]))
    );
}

#[test]
fn path_element_of_an_unknown_kind() {
    let e = Expression::PathElements {
        elements: vec![ExprPathElement { class_name: s("CurveTo"), bindings: vec![] }],
    };
    assert_eq!(eval(&e), Err(EvalError::UnsupportedPathElement));
    let document = document();
    let mut store = store();
    let r = convert_path_element(
        &ExprPathElement { class_name: s("lineto"), bindings: vec![] },
        &document.component_types[0],
        &outer(),
        &document,
        &mut store,
    );
    assert_eq!(r, Err(EvalError::UnsupportedPathElement));
}

fn build(kind: ShapeKind, bindings: Vec<(String, Expression)>) -> Result<PathElement, EvalError> {
    let document = document();
    let mut store = store();
    new_struct_with_bindings(
        kind,
        &bindings,
        &document.component_types[0],
        &outer(),
        &document,
        &mut store,
    )
}

#[test]
fn fields_without_a_binding_keep_their_defaults() {
    assert_eq!(
        build(ShapeKind::LineTo, vec![]),
        Ok(PathElement::LineTo(PathLineTo { x: num(0.0), y: num(0.0) }))
    );
    assert_eq!(
        build(ShapeKind::LineTo, vec![(s("y"), number(4.0))]),
        Ok(PathElement::LineTo(PathLineTo { x: num(0.0), y: num(4.0) }))
    );
    assert_eq!(build(ShapeKind::ArcTo, vec![]), Ok(arc(0.0, 0.0, false)));
}

#[test]
fn bindings_of_other_names_are_left_alone() {
    assert_eq!(
        build(ShapeKind::LineTo, vec![(s("radius_x"), Expression::Invalid), (s("x"), number(4.0))]),
        Ok(PathElement::LineTo(PathLineTo { x: num(4.0), y: num(0.0) }))
    );
}

#[test]
fn every_field_of_an_arc_can_be_bound() {
    let bindings = vec![
        (s("x"), number(1.0)),
        (s("y"), number(2.0)),
        (s("radius_x"), number(3.0)),
        (s("radius_y"), number(4.0)),
        (s("x_rotation"), number(5.0)),
        (s("large_arc"), Expression::BoolLiteral(true)),
        (s("sweep"), Expression::BoolLiteral(true)),
    ];
    assert_eq!(
        build(ShapeKind::ArcTo, bindings),
        Ok(PathElement::ArcTo(PathArcTo {
            x: num(1.0),
            y: num(2.0),
            radius_x: num(3.0),
            radius_y: num(4.0),
            x_rotation: num(5.0),
            large_arc: true,
            sweep: true,
        }))
    );
}

#[test]
fn a_field_refuses_a_value_of_another_kind() {
    assert_eq!(
        build(ShapeKind::LineTo, vec![(s("x"), Expression::BoolLiteral(true))]),
        Err(EvalError::IncompatibleField)
    );
    assert_eq!(
        build(ShapeKind::ArcTo, vec![(s("sweep"), number(1.0))]),
        Err(EvalError::IncompatibleField)
    );
    assert_eq!(
        build(ShapeKind::ArcTo, vec![(s("x"), Expression::Invalid)]),
        Err(EvalError::InvalidExpression)
    );
}

#[test]
fn fields_are_set_in_the_order_of_their_declaration() {
    // `y` fails on its value and `x` on its kind: `x` is declared first.
    assert_eq!(
        build(
            ShapeKind::LineTo,
            vec![(s("y"), Expression::Invalid), (s("x"), Expression::BoolLiteral(true))]
        ),
        Err(EvalError::IncompatibleField)
    );
}

#[test]
fn evaluation_keeps_the_layout_of_the_store() {
    let document = document();
    let mut store = store();
    let shape: Vec<(usize, usize)> =
        store.instances.iter().map(|i| (i.component_type, i.properties.len())).collect();
    let expressions = vec![
        assign(property(0, "count"), '+', number(1.0)),
        call(signal(0, "clicked")),
        Expression::CodeBlock(vec![call(signal(1, "pressed")), Expression::Invalid]),
        assign(property(1, "x"), '/', property(3, "height")),
        Expression::PathElements { elements: vec![line_to(), arc_to()] },
        ab_object(),
    ];
    let mut emitted = 0;
    for e in &expressions {
        let _ = eval_inner(e, &mut store);
        let after: Vec<(usize, usize)> =
            store.instances.iter().map(|i| (i.component_type, i.properties.len())).collect();
        assert_eq!(after, shape);
        assert!(store.emitted.len() >= emitted);
        emitted = store.emitted.len();
    }
    assert_eq!(
        store.emitted,
        vec![
            SignalEmission { component: 0, signal: 9 },
            SignalEmission { component: 0, signal: 7 },
        ]
    );
}

#[test]
fn an_assigned_value_is_read_back() {
    let mut store = store();
    for (element, name, op, operand) in
        [(0, "count", '+', 2.0), (1, "x", '*', 3.0), (3, "height", '-', 0.5), (0, "width", '/', 4.0)]
    {
        let before = match eval_inner(&property(element, name), &mut store) {
            Ok(Value::Number(n)) => f64::from_bits(n.to_bits()),
            other => panic!("{:?}", other),
        };
        let expected = match op {
            '+' => before + operand,
            '-' => before - operand,
            '*' => before * operand,
            _ => before / operand,
        };
        assert_eq!(eval_inner(&assign(property(element, name), op, number(operand)), &mut store), Ok(Value::Void));
        assert_eq!(eval_inner(&property(element, name), &mut store), Ok(Value::Number(num(expected))));
    }
}
