//! A tree-walking evaluator for the binding expressions of a declarative user
//! interface language, over component instances whose layout is known only at
//! run time.
//!
//! An [`expression::Expression`] is evaluated by [`eval::eval_expression`] for
//! a component type, in an evaluation context, to a [`value::Value`]. On the
//! way it reads and writes the properties of live instances and emits their
//! signals. Instances live in an [`component::InstanceStore`]: each is a run of
//! slots, and a component type says in which slot each property lies, so that
//! nothing is reached through an address. What an evaluation comes to is laid
//! down in [`semantics`], and the evaluator is proved to compute exactly that.
//!
//! Numbers are IEEE-754 binary64 values, held as bit patterns ([`number`]).
//! Comparisons, conversions to and from integers and the decimal text of a
//! number ([`text`]) are worked out on the patterns; sums, products, quotients
//! and rounding are taken from a software implementation of binary64.

pub mod component;
pub mod convert;
pub mod error;
pub mod eval;
pub mod expression;
pub mod number;
pub mod semantics;
pub mod shape;
pub mod table;
pub mod text;
pub mod value;
