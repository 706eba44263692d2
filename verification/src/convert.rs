//! Conversions between values and native types: making a value never fails,
//! and taking a native type out of a value fails where the value is of
//! another kind.

use crate::error::ConversionError;
use crate::number::{
    is_representable, lemma_int_round_trip, lemma_small_is_representable, number_of_int,
    number_to_signed, number_to_unsigned, Number,
};
use crate::value::{Color, PathElement, Resource, Value};
use vstd::arithmetic::power2::lemma2_to64_rest;
use vstd::prelude::*;
use vstd::std_specs::convert::{FromSpec, FromSpecImpl, TryFromSpec, TryFromSpecImpl};

verus! {

/// The absolute value of an integer.
pub open spec fn magnitude_of(x: int) -> nat {
    if x < 0 {
        (-x) as nat
    } else {
        x as nat
    }
}

/// The number that an integer is converted to.
pub open spec fn value_of_int(x: int) -> Value {
    Value::Number(Number { bits: number_of_int(x) as u64 })
}

/// The number of a value, if the value is a number.
pub open spec fn number_of_value(v: Value) -> Result<Number, ConversionError> {
    match v {
        Value::Number(n) => Ok(n),
        _ => Err(ConversionError),
    }
}

/// A value as an unsigned integer of at most `max`.
pub open spec fn unsigned_of_value(v: Value, max: int) -> Result<int, ConversionError> {
    match v {
        Value::Number(n) => Ok(number_to_unsigned(n.bits, max)),
        _ => Err(ConversionError),
    }
}

/// A value as a signed integer between `min` and `max`.
pub open spec fn signed_of_value(v: Value, min: int, max: int) -> Result<int, ConversionError> {
    match v {
        Value::Number(n) => Ok(number_to_signed(n.bits, min, max)),
        _ => Err(ConversionError),
    }
}

/// An unsigned integer that binary64 holds comes back from its value as it went in.
pub proof fn lemma_unsigned_round_trip(x: int, max: int)
    requires
        0 <= x <= max <= u64::MAX,
        is_representable(x as nat),
    ensures
        unsigned_of_value(value_of_int(x), max) == Ok::<int, ConversionError>(x),
{
    lemma_int_round_trip(x);
}

/// A signed integer that binary64 holds comes back from its value as it went in.
pub proof fn lemma_signed_round_trip(x: int, min: int, max: int)
    requires
        i64::MIN <= min <= x <= max <= i64::MAX,
        min < 0 <= max,
        is_representable(magnitude_of(x)),
    ensures
        signed_of_value(value_of_int(x), min, max) == Ok::<int, ConversionError>(x),
{
    lemma_int_round_trip(x);
}

/// Every integer of 32 bits comes back from its value as it went in.
pub proof fn lemma_32_bits_round_trip(x: int)
    requires
        i32::MIN <= x <= u32::MAX,
    ensures
        0 <= x ==> unsigned_of_value(value_of_int(x), u32::MAX as int) == Ok::<
            int,
            ConversionError,
        >(x),
        x <= i32::MAX ==> signed_of_value(value_of_int(x), i32::MIN as int, i32::MAX as int)
            == Ok::<int, ConversionError>(x),
{
    lemma2_to64_rest();
    lemma_small_is_representable(magnitude_of(x));
    lemma_int_round_trip(x);
}

/// The number nearest to a `u32`.
impl From<u32> for Value {
    fn from(v: u32) -> (r: Value) {
        Value::Number(Number::from_magnitude(v as u64))
    }
}

impl FromSpecImpl<u32> for Value {
    open spec fn obeys_from_spec() -> bool {
        true
    }

    open spec fn from_spec(v: u32) -> Value {
        value_of_int(v as int)
    }
}

/// The `u32` of a number: cut off towards zero and kept within the range of the
/// type. A value of another kind converts to nothing.
impl TryFrom<Value> for u32 {
    type Error = ConversionError;

    fn try_from(v: Value) -> (r: Result<u32, ConversionError>) {
        match v {
            Value::Number(n) => Ok(n.to_u32()),
            _ => Err(ConversionError),
        }
    }
}

impl TryFromSpecImpl<Value> for u32 {
    open spec fn obeys_try_from_spec() -> bool {
        true
    }

    open spec fn try_from_spec(v: Value) -> Result<u32, ConversionError> {
        match unsigned_of_value(v, u32::MAX as int) {
            Ok(x) => Ok(x as u32),
            Err(e) => Err(e),
        }
    }
}

/// The number nearest to a `u64`.
impl From<u64> for Value {
    fn from(v: u64) -> (r: Value) {
        Value::Number(Number::from_magnitude(v as u64))
    }
}

impl FromSpecImpl<u64> for Value {
    open spec fn obeys_from_spec() -> bool {
        true
    }

    open spec fn from_spec(v: u64) -> Value {
        value_of_int(v as int)
    }
}

/// The `u64` of a number: cut off towards zero and kept within the range of the
/// type. A value of another kind converts to nothing.
impl TryFrom<Value> for u64 {
    type Error = ConversionError;

    fn try_from(v: Value) -> (r: Result<u64, ConversionError>) {
        match v {
            Value::Number(n) => Ok(n.to_u64()),
            _ => Err(ConversionError),
        }
    }
}

impl TryFromSpecImpl<Value> for u64 {
    open spec fn obeys_try_from_spec() -> bool {
        true
    }

    open spec fn try_from_spec(v: Value) -> Result<u64, ConversionError> {
        match unsigned_of_value(v, u64::MAX as int) {
            Ok(x) => Ok(x as u64),
            Err(e) => Err(e),
        }
    }
}

/// The number nearest to a `usize`.
impl From<usize> for Value {
    fn from(v: usize) -> (r: Value) {
        Value::Number(Number::from_magnitude(v as u64))
    }
}

impl FromSpecImpl<usize> for Value {
    open spec fn obeys_from_spec() -> bool {
        true
    }

    open spec fn from_spec(v: usize) -> Value {
        value_of_int(v as int)
    }
}

/// The `usize` of a number: cut off towards zero and kept within the range of the
/// type. A value of another kind converts to nothing.
impl TryFrom<Value> for usize {
    type Error = ConversionError;

    fn try_from(v: Value) -> (r: Result<usize, ConversionError>) {
        match v {
            Value::Number(n) => Ok(n.to_usize()),
            _ => Err(ConversionError),
        }
    }
}

impl TryFromSpecImpl<Value> for usize {
    open spec fn obeys_try_from_spec() -> bool {
        true
    }

    open spec fn try_from_spec(v: Value) -> Result<usize, ConversionError> {
        match unsigned_of_value(v, usize::MAX as int) {
            Ok(x) => Ok(x as usize),
            Err(e) => Err(e),
        }
    }
}

/// The number nearest to a `i32`.
impl From<i32> for Value {
    fn from(v: i32) -> (r: Value) {
        Value::Number(Number::from_i64(v as i64))
    }
}

impl FromSpecImpl<i32> for Value {
    open spec fn obeys_from_spec() -> bool {
        true
    }

    open spec fn from_spec(v: i32) -> Value {
        value_of_int(v as int)
    }
}

/// The `i32` of a number: cut off towards zero and kept within the range of the
/// type. A value of another kind converts to nothing.
impl TryFrom<Value> for i32 {
    type Error = ConversionError;

    fn try_from(v: Value) -> (r: Result<i32, ConversionError>) {
        match v {
            Value::Number(n) => Ok(n.to_i32()),
            _ => Err(ConversionError),
        }
    }
}

impl TryFromSpecImpl<Value> for i32 {
    open spec fn obeys_try_from_spec() -> bool {
        true
    }

    open spec fn try_from_spec(v: Value) -> Result<i32, ConversionError> {
        match signed_of_value(v, i32::MIN as int, i32::MAX as int) {
            Ok(x) => Ok(x as i32),
            Err(e) => Err(e),
        }
    }
}

/// The number nearest to a `i64`.
impl From<i64> for Value {
    fn from(v: i64) -> (r: Value) {
        Value::Number(Number::from_i64(v as i64))
    }
}

impl FromSpecImpl<i64> for Value {
    open spec fn obeys_from_spec() -> bool {
        true
    }

    open spec fn from_spec(v: i64) -> Value {
        value_of_int(v as int)
    }
}

/// The `i64` of a number: cut off towards zero and kept within the range of the
/// type. A value of another kind converts to nothing.
impl TryFrom<Value> for i64 {
    type Error = ConversionError;

    fn try_from(v: Value) -> (r: Result<i64, ConversionError>) {
        match v {
            Value::Number(n) => Ok(n.to_i64()),
            _ => Err(ConversionError),
        }
    }
}

impl TryFromSpecImpl<Value> for i64 {
    open spec fn obeys_try_from_spec() -> bool {
        true
    }

    open spec fn try_from_spec(v: Value) -> Result<i64, ConversionError> {
        match signed_of_value(v, i64::MIN as int, i64::MAX as int) {
            Ok(x) => Ok(x as i64),
            Err(e) => Err(e),
        }
    }
}

/// The number nearest to a `isize`.
impl From<isize> for Value {
    fn from(v: isize) -> (r: Value) {
        Value::Number(Number::from_i64(v as i64))
    }
}

impl FromSpecImpl<isize> for Value {
    open spec fn obeys_from_spec() -> bool {
        true
    }

    open spec fn from_spec(v: isize) -> Value {
        value_of_int(v as int)
    }
}

/// The `isize` of a number: cut off towards zero and kept within the range of the
/// type. A value of another kind converts to nothing.
impl TryFrom<Value> for isize {
    type Error = ConversionError;

    fn try_from(v: Value) -> (r: Result<isize, ConversionError>) {
        match v {
            Value::Number(n) => Ok(n.to_isize()),
            _ => Err(ConversionError),
        }
    }
}

impl TryFromSpecImpl<Value> for isize {
    open spec fn obeys_try_from_spec() -> bool {
        true
    }

    open spec fn try_from_spec(v: Value) -> Result<isize, ConversionError> {
        match signed_of_value(v, isize::MIN as int, isize::MAX as int) {
            Ok(x) => Ok(x as isize),
            Err(e) => Err(e),
        }
    }
}

/// The value that holds a `Number`.
impl From<Number> for Value {
    fn from(v: Number) -> (r: Value) {
        Value::Number(v)
    }
}

impl FromSpecImpl<Number> for Value {
    open spec fn obeys_from_spec() -> bool {
        true
    }

    open spec fn from_spec(v: Number) -> Value {
        Value::Number(v)
    }
}

/// The `Number` that a value holds. A value of another kind converts to nothing.
impl TryFrom<Value> for Number {
    type Error = ConversionError;

    fn try_from(v: Value) -> (r: Result<Number, ConversionError>) {
        match v {
            Value::Number(x) => Ok(x),
            _ => Err(ConversionError),
        }
    }
}

impl TryFromSpecImpl<Value> for Number {
    open spec fn obeys_try_from_spec() -> bool {
        true
    }

    open spec fn try_from_spec(v: Value) -> Result<Number, ConversionError> {
        match v {
            Value::Number(x) => Ok(x),
            _ => Err(ConversionError),
        }
    }
}

/// The value that holds a `String`.
impl From<String> for Value {
    fn from(v: String) -> (r: Value) {
        Value::String(v)
    }
}

impl FromSpecImpl<String> for Value {
    open spec fn obeys_from_spec() -> bool {
        true
    }

    open spec fn from_spec(v: String) -> Value {
        Value::String(v)
    }
}

/// The `String` that a value holds. A value of another kind converts to nothing.
impl TryFrom<Value> for String {
    type Error = ConversionError;

    fn try_from(v: Value) -> (r: Result<String, ConversionError>) {
        match v {
            Value::String(x) => Ok(x),
            _ => Err(ConversionError),
        }
    }
}

impl TryFromSpecImpl<Value> for String {
    open spec fn obeys_try_from_spec() -> bool {
        true
    }

    open spec fn try_from_spec(v: Value) -> Result<String, ConversionError> {
        match v {
            Value::String(x) => Ok(x),
            _ => Err(ConversionError),
        }
    }
}

/// The value that holds a `bool`.
impl From<bool> for Value {
    fn from(v: bool) -> (r: Value) {
        Value::Bool(v)
    }
}

impl FromSpecImpl<bool> for Value {
    open spec fn obeys_from_spec() -> bool {
        true
    }

    open spec fn from_spec(v: bool) -> Value {
        Value::Bool(v)
    }
}

/// The `bool` that a value holds. A value of another kind converts to nothing.
impl TryFrom<Value> for bool {
    type Error = ConversionError;

    fn try_from(v: Value) -> (r: Result<bool, ConversionError>) {
        match v {
            Value::Bool(x) => Ok(x),
            _ => Err(ConversionError),
        }
    }
}

impl TryFromSpecImpl<Value> for bool {
    open spec fn obeys_try_from_spec() -> bool {
        true
    }

    open spec fn try_from_spec(v: Value) -> Result<bool, ConversionError> {
        match v {
            Value::Bool(x) => Ok(x),
            _ => Err(ConversionError),
        }
    }
}

/// The value that holds a `Resource`.
impl From<Resource> for Value {
    fn from(v: Resource) -> (r: Value) {
        Value::Resource(v)
    }
}

impl FromSpecImpl<Resource> for Value {
    open spec fn obeys_from_spec() -> bool {
        true
    }

    open spec fn from_spec(v: Resource) -> Value {
        Value::Resource(v)
    }
}

/// The `Resource` that a value holds. A value of another kind converts to nothing.
impl TryFrom<Value> for Resource {
    type Error = ConversionError;

    fn try_from(v: Value) -> (r: Result<Resource, ConversionError>) {
        match v {
            Value::Resource(x) => Ok(x),
            _ => Err(ConversionError),
        }
    }
}

impl TryFromSpecImpl<Value> for Resource {
    open spec fn obeys_try_from_spec() -> bool {
        true
    }

    open spec fn try_from_spec(v: Value) -> Result<Resource, ConversionError> {
        match v {
            Value::Resource(x) => Ok(x),
            _ => Err(ConversionError),
        }
    }
}

/// The value that holds a `Vec<(String, Value)>`.
impl From<Vec<(String, Value)>> for Value {
    fn from(v: Vec<(String, Value)>) -> (r: Value) {
        Value::Object(v)
    }
}

impl FromSpecImpl<Vec<(String, Value)>> for Value {
    open spec fn obeys_from_spec() -> bool {
        true
    }

    open spec fn from_spec(v: Vec<(String, Value)>) -> Value {
        Value::Object(v)
    }
}

/// The `Vec<(String, Value)>` that a value holds. A value of another kind converts to nothing.
impl TryFrom<Value> for Vec<(String, Value)> {
    type Error = ConversionError;

    fn try_from(v: Value) -> (r: Result<Vec<(String, Value)>, ConversionError>) {
        match v {
            Value::Object(x) => Ok(x),
            _ => Err(ConversionError),
        }
    }
}

impl TryFromSpecImpl<Value> for Vec<(String, Value)> {
    open spec fn obeys_try_from_spec() -> bool {
        true
    }

    open spec fn try_from_spec(v: Value) -> Result<Vec<(String, Value)>, ConversionError> {
        match v {
            Value::Object(x) => Ok(x),
            _ => Err(ConversionError),
        }
    }
}

/// The value that holds a `Color`.
impl From<Color> for Value {
    fn from(v: Color) -> (r: Value) {
        Value::Color(v)
    }
}

impl FromSpecImpl<Color> for Value {
    open spec fn obeys_from_spec() -> bool {
        true
    }

    open spec fn from_spec(v: Color) -> Value {
        Value::Color(v)
    }
}

/// The `Color` that a value holds. A value of another kind converts to nothing.
impl TryFrom<Value> for Color {
    type Error = ConversionError;

    fn try_from(v: Value) -> (r: Result<Color, ConversionError>) {
        match v {
            Value::Color(x) => Ok(x),
            _ => Err(ConversionError),
        }
    }
}

impl TryFromSpecImpl<Value> for Color {
    open spec fn obeys_try_from_spec() -> bool {
        true
    }

    open spec fn try_from_spec(v: Value) -> Result<Color, ConversionError> {
        match v {
            Value::Color(x) => Ok(x),
            _ => Err(ConversionError),
        }
    }
}

/// The value that holds a `Vec<PathElement>`.
impl From<Vec<PathElement>> for Value {
    fn from(v: Vec<PathElement>) -> (r: Value) {
        Value::PathElements(v)
    }
}

impl FromSpecImpl<Vec<PathElement>> for Value {
    open spec fn obeys_from_spec() -> bool {
        true
    }

    open spec fn from_spec(v: Vec<PathElement>) -> Value {
        Value::PathElements(v)
    }
}

/// The `Vec<PathElement>` that a value holds. A value of another kind converts to nothing.
impl TryFrom<Value> for Vec<PathElement> {
    type Error = ConversionError;

    fn try_from(v: Value) -> (r: Result<Vec<PathElement>, ConversionError>) {
        match v {
            Value::PathElements(x) => Ok(x),
            _ => Err(ConversionError),
        }
    }
}

impl TryFromSpecImpl<Value> for Vec<PathElement> {
    open spec fn obeys_try_from_spec() -> bool {
        true
    }

    open spec fn try_from_spec(v: Value) -> Result<Vec<PathElement>, ConversionError> {
        match v {
            Value::PathElements(x) => Ok(x),
            _ => Err(ConversionError),
        }
    }
}

/// Round trip: every `u32` comes back from its value as it went in.
pub proof fn lemma_u32_round_trip(x: u32)
    ensures
        <u32 as TryFromSpec<Value>>::try_from_spec(<Value as FromSpec<u32>>::from_spec(x)) == Ok::<
            u32,
            ConversionError,
        >(x),
{
    lemma_32_bits_round_trip(x as int);
}

/// Round trip: every `i32` comes back from its value as it went in.
pub proof fn lemma_i32_round_trip(x: i32)
    ensures
        <i32 as TryFromSpec<Value>>::try_from_spec(<Value as FromSpec<i32>>::from_spec(x)) == Ok::<
            i32,
            ConversionError,
        >(x),
{
    lemma_32_bits_round_trip(x as int);
}

/// Round trip: a `u64` that binary64 holds comes back from its value as it went in.
pub proof fn lemma_u64_round_trip(x: u64)
    requires
        is_representable(x as nat),
    ensures
        <u64 as TryFromSpec<Value>>::try_from_spec(<Value as FromSpec<u64>>::from_spec(x)) == Ok::<
            u64,
            ConversionError,
        >(x),
{
    lemma_unsigned_round_trip(x as int, u64::MAX as int);
}

/// Round trip: a `usize` that binary64 holds comes back from its value as it went in.
pub proof fn lemma_usize_round_trip(x: usize)
    requires
        is_representable(x as nat),
    ensures
        <usize as TryFromSpec<Value>>::try_from_spec(<Value as FromSpec<usize>>::from_spec(x)) == Ok::<
            usize,
            ConversionError,
        >(x),
{
    lemma_unsigned_round_trip(x as int, usize::MAX as int);
}

/// Round trip: a `i64` that binary64 holds comes back from its value as it went in.
pub proof fn lemma_i64_round_trip(x: i64)
    requires
        is_representable(magnitude_of(x as int)),
    ensures
        <i64 as TryFromSpec<Value>>::try_from_spec(<Value as FromSpec<i64>>::from_spec(x)) == Ok::<
            i64,
            ConversionError,
        >(x),
{
    lemma_signed_round_trip(x as int, i64::MIN as int, i64::MAX as int);
}

/// Round trip: a `isize` that binary64 holds comes back from its value as it went in.
pub proof fn lemma_isize_round_trip(x: isize)
    requires
        is_representable(magnitude_of(x as int)),
    ensures
        <isize as TryFromSpec<Value>>::try_from_spec(<Value as FromSpec<isize>>::from_spec(x)) == Ok::<
            isize,
            ConversionError,
        >(x),
{
    lemma_signed_round_trip(x as int, isize::MIN as int, isize::MAX as int);
}

/// Round trip: every `bool` comes back from its value as it went in.
pub proof fn lemma_bool_round_trip(x: bool)
    ensures
        <bool as TryFromSpec<Value>>::try_from_spec(<Value as FromSpec<bool>>::from_spec(x)) == Ok::<
            bool,
            ConversionError,
        >(x),
{
}

/// Round trip: every `Number` comes back from its value as it went in.
pub proof fn lemma_number_round_trip(x: Number)
    ensures
        <Number as TryFromSpec<Value>>::try_from_spec(<Value as FromSpec<Number>>::from_spec(x)) == Ok::<
            Number,
            ConversionError,
        >(x),
{
}

/// Round trip: every `String` comes back from its value as it went in.
pub proof fn lemma_string_round_trip(x: String)
    ensures
        <String as TryFromSpec<Value>>::try_from_spec(<Value as FromSpec<String>>::from_spec(x)) == Ok::<
            String,
            ConversionError,
        >(x),
{
}

/// Round trip: every `Color` comes back from its value as it went in.
pub proof fn lemma_color_round_trip(x: Color)
    ensures
        <Color as TryFromSpec<Value>>::try_from_spec(<Value as FromSpec<Color>>::from_spec(x)) == Ok::<
            Color,
            ConversionError,
        >(x),
{
}

/// A value of another kind converts to nothing: the conversion to a native
/// type fails on every value whose kind is not the one that the type stands for.
pub proof fn lemma_conversion_of_other_kind_fails(v: Value)
    ensures
        !(v is Number) ==> {
            &&& <u32 as TryFromSpec<Value>>::try_from_spec(v) is Err
            &&& <u64 as TryFromSpec<Value>>::try_from_spec(v) is Err
            &&& <usize as TryFromSpec<Value>>::try_from_spec(v) is Err
            &&& <i32 as TryFromSpec<Value>>::try_from_spec(v) is Err
            &&& <i64 as TryFromSpec<Value>>::try_from_spec(v) is Err
            &&& <isize as TryFromSpec<Value>>::try_from_spec(v) is Err
            &&& <Number as TryFromSpec<Value>>::try_from_spec(v) is Err
        },
        !(v is String) ==> <String as TryFromSpec<Value>>::try_from_spec(v) is Err,
        !(v is Bool) ==> <bool as TryFromSpec<Value>>::try_from_spec(v) is Err,
        !(v is Resource) ==> <Resource as TryFromSpec<Value>>::try_from_spec(v) is Err,
        !(v is Object) ==> <Vec<(String, Value)> as TryFromSpec<Value>>::try_from_spec(v) is Err,
        !(v is Color) ==> <Color as TryFromSpec<Value>>::try_from_spec(v) is Err,
        !(v is PathElements) ==> <Vec<PathElement> as TryFromSpec<Value>>::try_from_spec(v) is Err,
{
}

} // verus!
