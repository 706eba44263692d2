//! The dynamically typed values that expressions evaluate to.

use crate::number::{number_eq, Number};
use vstd::prelude::*;
use vstd::std_specs::cmp::PartialEqSpecImpl;

verus! {

/// A colour with 8-bit channels.
#[derive(Clone, Copy, Debug, PartialEq, Eq, Structural)]
pub struct Color {
    pub red: u8,
    pub green: u8,
    pub blue: u8,
    pub alpha: u8,
}

/// The colour that a number of the form `0xAARRGGBB` encodes.
pub open spec fn color_of(encoded: u32) -> Color {
    Color {
        red: ((encoded >> 16) & 0xff) as u8,
        green: ((encoded >> 8) & 0xff) as u8,
        blue: (encoded & 0xff) as u8,
        alpha: ((encoded >> 24) & 0xff) as u8,
    }
}

/// Calls `Color::from_argb_encoded` of `sixtyfps_corelib`, and reads the four
/// channels of what it returns. The contract states the channels as that
/// function's source computes them: alpha from the top byte, then red, green
/// and blue.
#[verifier::external_body]
fn color_from_encoded(encoded: u32) -> (c: Color)
    ensures
        c == color_of(encoded),
{
    let color = sixtyfps_corelib::Color::from_argb_encoded(encoded);
    Color { red: color.red(), green: color.green(), blue: color.blue(), alpha: color.alpha() }
}

impl Color {
    /// The colour that a number of the form `0xAARRGGBB` encodes.
    pub fn from_argb_encoded(encoded: u32) -> (c: Color)
        ensures
            c == color_of(encoded),
    {
        color_from_encoded(encoded)
    }
}

/// A straight segment of a path, to the given point.
#[derive(Clone, Copy, Debug)]
pub struct PathLineTo {
    pub x: Number,
    pub y: Number,
}

/// An elliptical arc of a path, to the given point.
#[derive(Clone, Copy, Debug)]
pub struct PathArcTo {
    pub x: Number,
    pub y: Number,
    pub radius_x: Number,
    pub radius_y: Number,
    pub x_rotation: Number,
    pub large_arc: bool,
    pub sweep: bool,
}

/// One segment of a path.
#[derive(Clone, Copy, Debug)]
pub enum PathElement {
    LineTo(PathLineTo),
    ArcTo(PathArcTo),
}

/// A handle to image-like data that lives outside the evaluator.
#[derive(Debug)]
pub enum Resource {
    /// No data.
    Unset,
    /// The data is the file at this absolute path; the file is not touched here.
    AbsoluteFilePath(String),
}

/// A value of the expression language.
#[derive(Debug)]
pub enum Value {
    /// Nothing: what an expression without a result evaluates to.
    Void,
    /// Any number.
    Number(Number),
    /// A string.
    String(String),
    /// A truth value.
    Bool(bool),
    /// A resource, typically an image.
    Resource(Resource),
    /// An ordered sequence of values.
    Array(Vec<Value>),
    /// Named fields. Where a name stands twice, the later entry is the field.
    Object(Vec<(String, Value)>),
    /// A colour.
    Color(Color),
    /// The segments of a path, in order.
    PathElements(Vec<PathElement>),
}

/// What a [`Value`] stands for.
pub ghost enum ValueView {
    Void,
    Number(u64),
    String(Seq<char>),
    Bool(bool),
    Resource(Option<Seq<char>>),
    Array(Seq<ValueView>),
    Object(Map<Seq<char>, ValueView>),
    Color(Color),
    PathElements(Seq<PathElement>),
}

/// The kinds of value.
#[derive(Clone, Copy, Debug, PartialEq, Eq, Structural)]
pub enum ValueKind {
    Void,
    Number,
    String,
    Bool,
    Resource,
    Array,
    Object,
    Color,
    PathElements,
}

/// The kind of a value.
pub open spec fn kind_of(v: ValueView) -> ValueKind {
    match v {
        ValueView::Void => ValueKind::Void,
        ValueView::Number(_) => ValueKind::Number,
        ValueView::String(_) => ValueKind::String,
        ValueView::Bool(_) => ValueKind::Bool,
        ValueView::Resource(_) => ValueKind::Resource,
        ValueView::Array(_) => ValueKind::Array,
        ValueView::Object(_) => ValueKind::Object,
        ValueView::Color(_) => ValueKind::Color,
        ValueView::PathElements(_) => ValueKind::PathElements,
    }
}

impl Value {
    /// The kind of the value.
    pub fn kind(&self) -> (r: ValueKind)
        ensures
            r == kind_of(self@),
    {
        match self {
            Value::Void => ValueKind::Void,
            Value::Number(_) => ValueKind::Number,
            Value::String(_) => ValueKind::String,
            Value::Bool(_) => ValueKind::Bool,
            Value::Resource(_) => ValueKind::Resource,
            Value::Array(_) => ValueKind::Array,
            Value::Object(_) => ValueKind::Object,
            Value::Color(_) => ValueKind::Color,
            Value::PathElements(_) => ValueKind::PathElements,
        }
    }
}

impl View for Resource {
    type V = Option<Seq<char>>;

    open spec fn view(&self) -> Option<Seq<char>> {
        match self {
            Resource::Unset => None,
            Resource::AbsoluteFilePath(path) => Some(path@),
        }
    }
}

/// The fields that the first `n` entries of an object define.
pub open spec fn fields_view(fields: Vec<(String, Value)>, n: nat) -> Map<Seq<char>, ValueView>
    decreases fields, n,
{
    if n == 0 || n > fields.len() {
        Map::empty()
    } else {
        fields_view(fields, (n - 1) as nat).insert(
            fields[n - 1].0@,
            fields[n - 1].1.view(),
        )
    }
}

/// What the items of an array stand for, in order.
pub open spec fn items_view(items: Vec<Value>) -> Seq<ValueView>
    decreases items, 0nat,
{
    Seq::new(
        items.len() as nat,
        |i: int|
            if 0 <= i < items.len() {
                items[i].view()
            } else {
                ValueView::Void
            },
    )
}

impl View for Value {
    type V = ValueView;

    open spec fn view(&self) -> ValueView
        decreases self, 0nat,
    {
        match self {
            Value::Void => ValueView::Void,
            Value::Number(n) => ValueView::Number(n.bits),
            Value::String(s) => ValueView::String(s@),
            Value::Bool(b) => ValueView::Bool(*b),
            Value::Resource(r) => ValueView::Resource(r@),
            Value::Array(items) => ValueView::Array(items_view(*items)),
            Value::Object(fields) => ValueView::Object(fields_view(*fields, fields.len() as nat)),
            Value::Color(c) => ValueView::Color(*c),
            Value::PathElements(elements) => ValueView::PathElements(elements@),
        }
    }
}


/// Whether, among the first `n` entries, entry `i` is the one that defines the
/// field `name`: the last entry of that name.
pub open spec fn defines_field(fields: Seq<(String, Value)>, n: int, name: Seq<char>, i: int) -> bool {
    &&& 0 <= i < n <= fields.len()
    &&& fields[i].0@ == name
    &&& forall|j: int| i < j < n ==> (#[trigger] fields[j]).0@ != name
}

/// An object has exactly the fields that its entries name, and finitely many.
pub proof fn lemma_fields_view(fields: Vec<(String, Value)>, n: nat, name: Seq<char>)
    requires
        n <= fields.len(),
    ensures
        fields_view(fields, n).dom().finite(),
        fields_view(fields, n).contains_key(name) <==> exists|j: int|
            0 <= j < n && (#[trigger] fields[j]).0@ == name,
    decreases n,
{
    if n > 0 {
        lemma_fields_view(fields, (n - 1) as nat, name);
        let shorter = fields_view(fields, (n - 1) as nat);
        let last = fields[n - 1];
        assert(fields_view(fields, n) == shorter.insert(last.0@, last.1@));
        if last.0@ == name {
            assert(fields[n - 1].0@ == name);
        }
    }
}

/// The value of a field is that of the last entry that bears its name.
pub proof fn lemma_field_defined(fields: Vec<(String, Value)>, n: nat, name: Seq<char>, i: int)
    requires
        defines_field(fields@, n as int, name, i),
    ensures
        fields_view(fields, n).contains_key(name),
        fields_view(fields, n)[name] == fields[i].1@,
    decreases n,
{
    assert(fields_view(fields, n) == fields_view(fields, (n - 1) as nat).insert(
        fields[n - 1].0@,
        fields[n - 1].1@,
    ));
    if i < n - 1 {
        assert(fields[n - 1].0@ != name);
        assert(defines_field(fields@, n - 1, name, i));
        lemma_field_defined(fields, (n - 1) as nat, name, i);
    }
}

/// The index of the entry that defines the field `name`, if the object has that field.
pub fn find_field(fields: &Vec<(String, Value)>, name: &String) -> (r: Option<usize>)
    ensures
        r is Some <==> fields_view(*fields, fields.len() as nat).contains_key(name@),
        r matches Some(i) ==> i < fields.len() && fields[i as int].0@ == name@ && fields_view(
            *fields,
            fields.len() as nat,
        )[name@] == fields[i as int].1@,
{
    let mut i: usize = fields.len();
    while i > 0
        invariant
            i <= fields.len(),
            forall|j: int| i <= j < fields.len() ==> (#[trigger] fields[j]).0@ != name@,
        decreases i,
    {
        i = i - 1;
        if fields[i].0 == *name {
            proof {
                lemma_field_defined(*fields, fields.len() as nat, name@, i as int);
            }
            return Some(i);
        }
    }
    proof {
        lemma_fields_view(*fields, fields.len() as nat, name@);
    }
    None
}

/// Whether two path segments are equal: the same kind of segment, with equal fields.
pub open spec fn path_elements_equal(a: PathElement, b: PathElement) -> bool {
    match (a, b) {
        (PathElement::LineTo(p), PathElement::LineTo(q)) => {
            &&& number_eq(p.x.bits, q.x.bits)
            &&& number_eq(p.y.bits, q.y.bits)
        },
        (PathElement::ArcTo(p), PathElement::ArcTo(q)) => {
            &&& number_eq(p.x.bits, q.x.bits)
            &&& number_eq(p.y.bits, q.y.bits)
            &&& number_eq(p.radius_x.bits, q.radius_x.bits)
            &&& number_eq(p.radius_y.bits, q.radius_y.bits)
            &&& number_eq(p.x_rotation.bits, q.x_rotation.bits)
            &&& p.large_arc == q.large_arc
            &&& p.sweep == q.sweep
        },
        _ => false,
    }
}

/// Structural equality of values: the same kind of value, with equal contents.
/// Numbers compare as numbers do, so a NaN equals nothing and the two zeros
/// equal each other.
pub open spec fn values_equal(a: ValueView, b: ValueView) -> bool
    decreases a,
{
    match (a, b) {
        (ValueView::Void, ValueView::Void) => true,
        (ValueView::Number(x), ValueView::Number(y)) => number_eq(x, y),
        (ValueView::String(x), ValueView::String(y)) => x == y,
        (ValueView::Bool(x), ValueView::Bool(y)) => x == y,
        (ValueView::Resource(x), ValueView::Resource(y)) => x == y,
        (ValueView::Array(x), ValueView::Array(y)) => {
            &&& x.len() == y.len()
            &&& forall|i: int| 0 <= i < x.len() ==> values_equal(#[trigger] x[i], y[i])
        },
        (ValueView::Object(x), ValueView::Object(y)) => {
            &&& x.dom() =~= y.dom()
            &&& forall|k: Seq<char>|
                x.dom().finite() && x.dom().contains(k) ==> values_equal(#[trigger] x[k], y[k])
        },
        (ValueView::Color(x), ValueView::Color(y)) => x == y,
        (ValueView::PathElements(x), ValueView::PathElements(y)) => {
            &&& x.len() == y.len()
            &&& forall|i: int| 0 <= i < x.len() ==> path_elements_equal(#[trigger] x[i], y[i])
        },
        _ => false,
    }
}

impl PathElement {
    /// Whether the two segments are equal.
    pub fn equals(&self, other: &PathElement) -> (r: bool)
        ensures
            r == path_elements_equal(*self, *other),
    {
        match (self, other) {
            (PathElement::LineTo(p), PathElement::LineTo(q)) => p.x.equals(q.x) && p.y.equals(q.y),
            (PathElement::ArcTo(p), PathElement::ArcTo(q)) => {
                p.x.equals(q.x) && p.y.equals(q.y) && p.radius_x.equals(q.radius_x)
                    && p.radius_y.equals(q.radius_y) && p.x_rotation.equals(q.x_rotation)
                    && p.large_arc == q.large_arc && p.sweep == q.sweep
            },
            _ => false,
        }
    }
}

impl Resource {
    /// Whether the two handles are equal.
    pub fn equals(&self, other: &Resource) -> (r: bool)
        ensures
            r == (self@ == other@),
    {
        match (self, other) {
            (Resource::Unset, Resource::Unset) => true,
            (Resource::AbsoluteFilePath(a), Resource::AbsoluteFilePath(b)) => *a == *b,
            _ => false,
        }
    }

    /// A copy of the handle.
    pub fn duplicate(&self) -> (r: Resource)
        ensures
            r@ == self@,
    {
        match self {
            Resource::Unset => Resource::Unset,
            Resource::AbsoluteFilePath(a) => Resource::AbsoluteFilePath(a.clone()),
        }
    }
}

/// Whether the two arrays are equal, item by item.
pub fn arrays_equal(x: &Vec<Value>, y: &Vec<Value>) -> (r: bool)
    ensures
        r == values_equal(ValueView::Array(items_view(*x)), ValueView::Array(items_view(*y))),
    decreases x, 0nat,
{
    if x.len() != y.len() {
        return false;
    }
    let mut i: usize = 0;
    while i < x.len()
        invariant
            i <= x.len(),
            x.len() == y.len(),
            forall|k: int| 0 <= k < i ==> values_equal(#[trigger] items_view(*x)[k], items_view(*y)[k]),
        decreases x.len() - i,
    {
        if !x[i].equals(&y[i]) {
            assert(!values_equal(items_view(*x)[i as int], items_view(*y)[i as int]));
            return false;
        }
        i = i + 1;
    }
    true
}

/// Whether the two runs of path segments are equal, segment by segment.
pub fn paths_equal(x: &Vec<PathElement>, y: &Vec<PathElement>) -> (r: bool)
    ensures
        r == values_equal(ValueView::PathElements(x@), ValueView::PathElements(y@)),
{
    if x.len() != y.len() {
        return false;
    }
    let mut i: usize = 0;
    while i < x.len()
        invariant
            i <= x.len(),
            x.len() == y.len(),
            forall|k: int| 0 <= k < i ==> path_elements_equal(#[trigger] x@[k], y@[k]),
        decreases x.len() - i,
    {
        if !x[i].equals(&y[i]) {
            assert(!path_elements_equal(x@[i as int], y@[i as int]));
            return false;
        }
        i = i + 1;
    }
    true
}

/// Whether every field of `x` is a field of `y` too, with an equal value.
fn fields_covered(x: &Vec<(String, Value)>, y: &Vec<(String, Value)>) -> (r: bool)
    ensures
        r == forall|k: Seq<char>| #[trigger]
            fields_view(*x, x.len() as nat).contains_key(k) ==> fields_view(
                *y,
                y.len() as nat,
            ).contains_key(k) && values_equal(
                fields_view(*x, x.len() as nat)[k],
                fields_view(*y, y.len() as nat)[k],
            ),
    decreases x, 0nat,
{
    let ghost xs = fields_view(*x, x.len() as nat);
    let ghost ys = fields_view(*y, y.len() as nat);
    let mut i: usize = 0;
    while i < x.len()
        invariant
            i <= x.len(),
            xs == fields_view(*x, x.len() as nat),
            ys == fields_view(*y, y.len() as nat),
            forall|k: int|
                0 <= k < i ==> ys.contains_key((#[trigger] x@[k]).0@) && values_equal(
                    xs[x@[k].0@],
                    ys[x@[k].0@],
                ),
        decreases x.len() - i,
    {
        let mine = find_field(x, &x[i].0);
        let theirs = find_field(y, &x[i].0);
        proof {
            lemma_fields_view(*x, x.len() as nat, x@[i as int].0@);
        }
        match (mine, theirs) {
            (Some(a), Some(b)) => {
                if !x[a].1.equals(&y[b].1) {
                    assert(xs.contains_key(x@[i as int].0@));
                    return false;
                }
            },
            _ => {
                assert(xs.contains_key(x@[i as int].0@));
                return false;
            },
        }
        i = i + 1;
    }
    proof {
        assert forall|k: Seq<char>| #[trigger] xs.contains_key(k) implies ys.contains_key(k)
            && values_equal(xs[k], ys[k]) by {
            lemma_fields_view(*x, x.len() as nat, k);
            let j = choose|j: int| 0 <= j < x.len() && (#[trigger] x[j]).0@ == k;
            assert(ys.contains_key(x@[j].0@));
        }
    }
    true
}

/// Whether every field of `y` is a field of `x` too.
fn fields_present(x: &Vec<(String, Value)>, y: &Vec<(String, Value)>) -> (r: bool)
    ensures
        r == forall|k: Seq<char>| #[trigger]
            fields_view(*y, y.len() as nat).contains_key(k) ==> fields_view(
                *x,
                x.len() as nat,
            ).contains_key(k),
{
    let ghost xs = fields_view(*x, x.len() as nat);
    let ghost ys = fields_view(*y, y.len() as nat);
    let mut j: usize = 0;
    while j < y.len()
        invariant
            j <= y.len(),
            xs == fields_view(*x, x.len() as nat),
            ys == fields_view(*y, y.len() as nat),
            forall|k: int| 0 <= k < j ==> xs.contains_key((#[trigger] y@[k]).0@),
        decreases y.len() - j,
    {
        if find_field(x, &y[j].0).is_none() {
            proof {
                lemma_fields_view(*y, y.len() as nat, y@[j as int].0@);
            }
            assert(ys.contains_key(y@[j as int].0@));
            return false;
        }
        j = j + 1;
    }
    proof {
        assert forall|k: Seq<char>| #[trigger] ys.contains_key(k) implies xs.contains_key(k) by {
            lemma_fields_view(*y, y.len() as nat, k);
            let j = choose|j: int| 0 <= j < y.len() && (#[trigger] y[j]).0@ == k;
            assert(xs.contains_key(y@[j].0@));
        }
    }
    true
}

/// Whether the two objects are equal: the same fields, with equal values.
pub fn objects_equal(x: &Vec<(String, Value)>, y: &Vec<(String, Value)>) -> (r: bool)
    ensures
        r == values_equal(
            ValueView::Object(fields_view(*x, x.len() as nat)),
            ValueView::Object(fields_view(*y, y.len() as nat)),
        ),
    decreases x, 1nat,
{
    let ghost xs = fields_view(*x, x.len() as nat);
    let ghost ys = fields_view(*y, y.len() as nat);
    let covered = fields_covered(x, y);
    let present = fields_present(x, y);
    proof {
        assert(xs.dom().finite()) by {
            lemma_fields_view(*x, x.len() as nat, Seq::empty());
        }
        if covered && present {
            assert(xs.dom() =~= ys.dom());
        }
        if values_equal(ValueView::Object(xs), ValueView::Object(ys)) {
            assert forall|k: Seq<char>| #[trigger] xs.contains_key(k) implies ys.contains_key(k)
                && values_equal(xs[k], ys[k]) by {
                assert(xs.dom().contains(k));
                assert(ys.dom().contains(k));
            }
        }
    }
    covered && present
}

impl Value {
    /// Whether the two values are equal.
    pub fn equals(&self, other: &Value) -> (r: bool)
        ensures
            r == values_equal(self@, other@),
        decreases self, 0nat,
    {
        match self {
            Value::Void => matches!(other, Value::Void),
            Value::Number(x) => match other {
                Value::Number(y) => x.equals(*y),
                _ => false,
            },
            Value::String(x) => match other {
                Value::String(y) => *x == *y,
                _ => false,
            },
            Value::Bool(x) => match other {
                Value::Bool(y) => *x == *y,
                _ => false,
            },
            Value::Resource(x) => match other {
                Value::Resource(y) => x.equals(y),
                _ => false,
            },
            Value::Array(x) => match other {
                Value::Array(y) => arrays_equal(x, y),
                _ => false,
            },
            Value::Object(x) => match other {
                Value::Object(y) => objects_equal(x, y),
                _ => false,
            },
            Value::Color(x) => match other {
                Value::Color(y) => x.red == y.red && x.green == y.green && x.blue == y.blue && x.alpha == y.alpha,
                _ => false,
            },
            Value::PathElements(x) => match other {
                Value::PathElements(y) => paths_equal(x, y),
                _ => false,
            },
        }
    }
}


/// Objects whose entries stand for the same names and values have the same fields.
pub proof fn lemma_fields_view_congruent(
    x: Vec<(String, Value)>,
    y: Vec<(String, Value)>,
    n: nat,
)
    requires
        n <= x.len(),
        n <= y.len(),
        forall|k: int| 0 <= k < n ==> (#[trigger] x[k]).0@ == y[k].0@ && x[k].1@ == y[k].1@,
    ensures
        fields_view(x, n) == fields_view(y, n),
    decreases n,
{
    if n > 0 {
        lemma_fields_view_congruent(x, y, (n - 1) as nat);
        assert(x[n - 1].0@ == y[n - 1].0@ && x[n - 1].1@ == y[n - 1].1@);
    }
}

/// A copy of the items of an array.
pub fn duplicate_items(x: &Vec<Value>) -> (r: Vec<Value>)
    ensures
        items_view(r) == items_view(*x),
    decreases x, 0nat,
{
    let mut out: Vec<Value> = Vec::new();
    let mut i: usize = 0;
    while i < x.len()
        invariant
            i <= x.len(),
            out.len() == i,
            forall|k: int| 0 <= k < i ==> (#[trigger] out[k])@ == x[k]@,
        decreases x.len() - i,
    {
        let item = x[i].duplicate();
        out.push(item);
        i = i + 1;
    }
    assert(items_view(out) =~= items_view(*x));
    out
}

/// A copy of the entries of an object.
pub fn duplicate_fields(x: &Vec<(String, Value)>) -> (r: Vec<(String, Value)>)
    ensures
        r.len() == x.len(),
        forall|k: int| 0 <= k < x.len() ==> (#[trigger] r[k]).0@ == x[k].0@ && r[k].1@ == x[k].1@,
        fields_view(r, r.len() as nat) == fields_view(*x, x.len() as nat),
    decreases x, 0nat,
{
    let mut out: Vec<(String, Value)> = Vec::new();
    let mut i: usize = 0;
    while i < x.len()
        invariant
            i <= x.len(),
            out.len() == i,
            forall|k: int| 0 <= k < i ==> (#[trigger] out[k]).0@ == x[k].0@ && out[k].1@ == x[k].1@,
        decreases x.len() - i,
    {
        let name = x[i].0.clone();
        let value = x[i].1.duplicate();
        out.push((name, value));
        i = i + 1;
    }
    proof {
        lemma_fields_view_congruent(out, *x, x.len() as nat);
    }
    out
}

/// A copy of a run of path segments.
pub fn duplicate_path(x: &Vec<PathElement>) -> (r: Vec<PathElement>)
    ensures
        r@ == x@,
{
    let mut out: Vec<PathElement> = Vec::new();
    let mut i: usize = 0;
    while i < x.len()
        invariant
            i <= x.len(),
            out.len() == i,
            forall|k: int| 0 <= k < i ==> out[k] == x[k],
        decreases x.len() - i,
    {
        out.push(x[i]);
        i = i + 1;
    }
    assert(out@ =~= x@);
    out
}

impl Value {
    /// A copy of the value.
    pub fn duplicate(&self) -> (r: Value)
        ensures
            r@ == self@,
        decreases self, 0nat,
    {
        match self {
            Value::Void => Value::Void,
            Value::Number(n) => Value::Number(*n),
            Value::String(s) => Value::String(s.clone()),
            Value::Bool(b) => Value::Bool(*b),
            Value::Resource(r) => Value::Resource(r.duplicate()),
            Value::Array(items) => Value::Array(duplicate_items(items)),
            Value::Object(fields) => Value::Object(duplicate_fields(fields)),
            Value::Color(c) => Value::Color(*c),
            Value::PathElements(elements) => Value::PathElements(duplicate_path(elements)),
        }
    }
}

impl Clone for Value {
    fn clone(&self) -> (r: Value)
        ensures
            r@ == self@,
    {
        self.duplicate()
    }
}

impl Clone for Resource {
    fn clone(&self) -> (r: Resource)
        ensures
            r@ == self@,
    {
        self.duplicate()
    }
}

impl Default for Value {
    fn default() -> (r: Value)
        ensures
            r == Value::Void,
    {
        Value::Void
    }
}

impl PartialEq for Value {
    fn eq(&self, other: &Value) -> (r: bool) {
        self.equals(other)
    }
}

impl PartialEqSpecImpl for Value {
    open spec fn obeys_eq_spec() -> bool {
        true
    }

    open spec fn eq_spec(&self, other: &Value) -> bool {
        values_equal(self@, other@)
    }
}

impl PartialEq for Resource {
    fn eq(&self, other: &Resource) -> (r: bool) {
        self.equals(other)
    }
}

impl PartialEqSpecImpl for Resource {
    open spec fn obeys_eq_spec() -> bool {
        true
    }

    open spec fn eq_spec(&self, other: &Resource) -> bool {
        self@ == other@
    }
}

impl PartialEq for PathElement {
    fn eq(&self, other: &PathElement) -> (r: bool) {
        self.equals(other)
    }
}

impl PartialEqSpecImpl for PathElement {
    open spec fn obeys_eq_spec() -> bool {
        true
    }

    open spec fn eq_spec(&self, other: &PathElement) -> bool {
        path_elements_equal(*self, *other)
    }
}

} // verus!
