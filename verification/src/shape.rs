//! The built-in shapes that are made from bindings: the segments of a path.

use crate::error::ConversionError;
use crate::number::Number;
use crate::value::{PathArcTo, PathElement, PathLineTo, Value, ValueView};
use vstd::prelude::*;

verus! {

/// The kinds of shape.
#[derive(Clone, Copy, Debug, PartialEq, Eq, Structural)]
pub enum ShapeKind {
    LineTo,
    ArcTo,
}

/// The fields that shapes have.
#[derive(Clone, Copy, Debug, PartialEq, Eq, Structural)]
pub enum ShapeField {
    X,
    Y,
    RadiusX,
    RadiusY,
    XRotation,
    LargeArc,
    Sweep,
}

/// The kind of shape that a class name stands for.
pub open spec fn shape_kind_of(class_name: Seq<char>) -> Option<ShapeKind> {
    if class_name == "LineTo"@ {
        Some(ShapeKind::LineTo)
    } else if class_name == "ArcTo"@ {
        Some(ShapeKind::ArcTo)
    } else {
        None
    }
}

/// The fields of a kind of shape, in the order of their declaration.
pub open spec fn shape_fields(kind: ShapeKind) -> Seq<ShapeField> {
    match kind {
        ShapeKind::LineTo => seq![ShapeField::X, ShapeField::Y],
        ShapeKind::ArcTo => seq![
            ShapeField::X,
            ShapeField::Y,
            ShapeField::RadiusX,
            ShapeField::RadiusY,
            ShapeField::XRotation,
            ShapeField::LargeArc,
            ShapeField::Sweep,
        ],
    }
}

/// The name of a field.
pub open spec fn field_name(field: ShapeField) -> Seq<char> {
    match field {
        ShapeField::X => "x"@,
        ShapeField::Y => "y"@,
        ShapeField::RadiusX => "radius_x"@,
        ShapeField::RadiusY => "radius_y"@,
        ShapeField::XRotation => "x_rotation"@,
        ShapeField::LargeArc => "large_arc"@,
        ShapeField::Sweep => "sweep"@,
    }
}

/// The shape of a kind with every field at its default: numbers at zero, and
/// truth values false.
pub open spec fn default_shape(kind: ShapeKind) -> PathElement {
    let zero = Number { bits: 0 };
    match kind {
        ShapeKind::LineTo => PathElement::LineTo(PathLineTo { x: zero, y: zero }),
        ShapeKind::ArcTo => PathElement::ArcTo(
            PathArcTo {
                x: zero,
                y: zero,
                radius_x: zero,
                radius_y: zero,
                x_rotation: zero,
                large_arc: false,
                sweep: false,
            },
        ),
    }
}

/// The shape with one field set, or `None` where the shape has no such field
/// or the field does not take the value.
pub open spec fn with_field(shape: PathElement, field: ShapeField, value: ValueView) -> Option<
    PathElement,
> {
    match (shape, field, value) {
        (PathElement::LineTo(s), ShapeField::X, ValueView::Number(n)) => Some(
            PathElement::LineTo(PathLineTo { x: Number { bits: n }, ..s }),
        ),
        (PathElement::LineTo(s), ShapeField::Y, ValueView::Number(n)) => Some(
            PathElement::LineTo(PathLineTo { y: Number { bits: n }, ..s }),
        ),
        (PathElement::ArcTo(s), ShapeField::X, ValueView::Number(n)) => Some(
            PathElement::ArcTo(PathArcTo { x: Number { bits: n }, ..s }),
        ),
        (PathElement::ArcTo(s), ShapeField::Y, ValueView::Number(n)) => Some(
            PathElement::ArcTo(PathArcTo { y: Number { bits: n }, ..s }),
        ),
        (PathElement::ArcTo(s), ShapeField::RadiusX, ValueView::Number(n)) => Some(
            PathElement::ArcTo(PathArcTo { radius_x: Number { bits: n }, ..s }),
        ),
        (PathElement::ArcTo(s), ShapeField::RadiusY, ValueView::Number(n)) => Some(
            PathElement::ArcTo(PathArcTo { radius_y: Number { bits: n }, ..s }),
        ),
        (PathElement::ArcTo(s), ShapeField::XRotation, ValueView::Number(n)) => Some(
            PathElement::ArcTo(PathArcTo { x_rotation: Number { bits: n }, ..s }),
        ),
        (PathElement::ArcTo(s), ShapeField::LargeArc, ValueView::Bool(b)) => Some(
            PathElement::ArcTo(PathArcTo { large_arc: b, ..s }),
        ),
        (PathElement::ArcTo(s), ShapeField::Sweep, ValueView::Bool(b)) => Some(
            PathElement::ArcTo(PathArcTo { sweep: b, ..s }),
        ),
        _ => None,
    }
}

impl ShapeKind {
    /// The kind of shape that a class name stands for.
    pub fn from_class_name(class_name: &String) -> (r: Option<ShapeKind>)
        ensures
            r == shape_kind_of(class_name@),
    {
        let line_to = "LineTo".to_owned();
        let arc_to = "ArcTo".to_owned();
        if *class_name == line_to {
            Some(ShapeKind::LineTo)
        } else if *class_name == arc_to {
            Some(ShapeKind::ArcTo)
        } else {
            None
        }
    }

    /// The fields of the kind, in the order of their declaration.
    pub fn fields(self) -> (r: Vec<ShapeField>)
        ensures
            r@ == shape_fields(self),
    {
        let mut fields: Vec<ShapeField> = Vec::new();
        fields.push(ShapeField::X);
        fields.push(ShapeField::Y);
        match self {
            ShapeKind::LineTo => {},
            ShapeKind::ArcTo => {
                fields.push(ShapeField::RadiusX);
                fields.push(ShapeField::RadiusY);
                fields.push(ShapeField::XRotation);
                fields.push(ShapeField::LargeArc);
                fields.push(ShapeField::Sweep);
            },
        }
        assert(fields@ =~= shape_fields(self));
        fields
    }

    /// The shape of this kind with every field at its default.
    pub fn default_element(self) -> (r: PathElement)
        ensures
            r == default_shape(self),
    {
        let zero = Number { bits: 0 };
        match self {
            ShapeKind::LineTo => PathElement::LineTo(PathLineTo { x: zero, y: zero }),
            ShapeKind::ArcTo => PathElement::ArcTo(
                PathArcTo {
                    x: zero,
                    y: zero,
                    radius_x: zero,
                    radius_y: zero,
                    x_rotation: zero,
                    large_arc: false,
                    sweep: false,
                },
            ),
        }
    }
}

impl ShapeField {
    /// The name of the field.
    pub fn name(self) -> (r: String)
        ensures
            r@ == field_name(self),
    {
        match self {
            ShapeField::X => "x".to_owned(),
            ShapeField::Y => "y".to_owned(),
            ShapeField::RadiusX => "radius_x".to_owned(),
            ShapeField::RadiusY => "radius_y".to_owned(),
            ShapeField::XRotation => "x_rotation".to_owned(),
            ShapeField::LargeArc => "large_arc".to_owned(),
            ShapeField::Sweep => "sweep".to_owned(),
        }
    }

    /// Sets this field of a shape. Fails, and leaves the shape as it is, where
    /// the shape has no such field or the field does not take the value.
    pub fn set_field(self, element: &mut PathElement, value: &Value) -> (r: Result<
        (),
        ConversionError,
    >)
        ensures
            match r {
                Ok(_) => with_field(*old(element), self, value@) == Some(*final(element)),
                Err(_) => with_field(*old(element), self, value@) is None && *final(element)
                    == *old(element),
            },
    {
        let current = *element;
        match (current, self, value) {
            (PathElement::LineTo(s), ShapeField::X, Value::Number(n)) => {
                *element = PathElement::LineTo(PathLineTo { x: *n, y: s.y });
                Ok(())
            },
            (PathElement::LineTo(s), ShapeField::Y, Value::Number(n)) => {
                *element = PathElement::LineTo(PathLineTo { x: s.x, y: *n });
                Ok(())
            },
            (PathElement::ArcTo(s), ShapeField::X, Value::Number(n)) => {
                *element = PathElement::ArcTo(PathArcTo { x: *n, ..s });
                Ok(())
            },
            (PathElement::ArcTo(s), ShapeField::Y, Value::Number(n)) => {
                *element = PathElement::ArcTo(PathArcTo { y: *n, ..s });
                Ok(())
            },
            (PathElement::ArcTo(s), ShapeField::RadiusX, Value::Number(n)) => {
                *element = PathElement::ArcTo(PathArcTo { radius_x: *n, ..s });
                Ok(())
            },
            (PathElement::ArcTo(s), ShapeField::RadiusY, Value::Number(n)) => {
                *element = PathElement::ArcTo(PathArcTo { radius_y: *n, ..s });
                Ok(())
            },
            (PathElement::ArcTo(s), ShapeField::XRotation, Value::Number(n)) => {
                *element = PathElement::ArcTo(PathArcTo { x_rotation: *n, ..s });
                Ok(())
            },
            (PathElement::ArcTo(s), ShapeField::LargeArc, Value::Bool(b)) => {
                *element = PathElement::ArcTo(PathArcTo { large_arc: *b, ..s });
                Ok(())
            },
            (PathElement::ArcTo(s), ShapeField::Sweep, Value::Bool(b)) => {
                *element = PathElement::ArcTo(PathArcTo { sweep: *b, ..s });
                Ok(())
            },
            _ => Err(ConversionError),
        }
    }
}

} // verus!
