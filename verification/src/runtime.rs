//! The runtime for ahead-of-time translated programs: a small value
//! algebra with numbers, lists, and curried primitive functions, applied
//! one argument at a time through [`ap`].
//!
//! Functions are represented by tags rather than closures: a two-argument
//! primitive applied once yields a one-argument function holding the
//! first argument.  Of the primitive entries only list construction is
//! provided; the numeric and combinator entries are placeholders that
//! return a fixed number, as the translated programs exercised here only
//! ever force list structure.

use vstd::prelude::*;

verus! {

/// A two-argument primitive of the runtime.
#[derive(Debug, Clone, Copy, PartialEq, Eq, Structural)]
pub enum Op2 {
    /// List construction: pushes its first argument onto its second,
    /// which must be a list.
    Cons,
}

/// A one-argument function: a two-argument primitive together with its
/// first argument.
#[derive(Debug)]
pub struct Func1 {
    pub op: Op2,
    pub first: Box<Value>,
}

/// A two-argument function: a primitive awaiting both arguments.
#[derive(Debug, Clone, Copy, PartialEq, Eq, Structural)]
pub struct Func2 {
    pub op: Op2,
}

/// A runtime value: a number, a list (stored in reverse order, newest
/// element last), or a function.
#[derive(Debug)]
pub enum Value {
    Number(i64),
    List(Vec<Value>),
    Func1(Func1),
    Func2(Func2),
}

impl Value {
    /// Extracts the number held by a numeric value.
    pub fn unwrap_number(self) -> (r: i64)
        requires
            self is Number,
        ensures
            self == Value::Number(r),
    {
        match self {
            Value::Number(n) => n,
            _ => {
                proof {
                    assert(false);
                }
                0
            },
        }
    }

    /// Extracts the elements held by a list value.
    pub fn unwrap_list(self) -> (r: Vec<Value>)
        requires
            self is List,
        ensures
            self == Value::List(r),
    {
        match self {
            Value::List(v) => v,
            _ => {
                proof {
                    assert(false);
                }
                Vec::new()
            },
        }
    }
}

/// The `inc` primitive entry (placeholder).
pub fn inc() -> (r: Value)
    ensures
        r == Value::Number(0i64),
{
    Value::Number(0)
}

/// The `dec` primitive entry (placeholder).
pub fn dec() -> (r: Value)
    ensures
        r == Value::Number(0i64),
{
    Value::Number(0)
}

/// The `add` primitive entry (placeholder).
pub fn add() -> (r: Value)
    ensures
        r == Value::Number(0i64),
{
    Value::Number(0)
}

/// The `mul` primitive entry (placeholder).
pub fn mul() -> (r: Value)
    ensures
        r == Value::Number(0i64),
{
    Value::Number(0)
}

/// The `div` primitive entry (placeholder).
pub fn div() -> (r: Value)
    ensures
        r == Value::Number(0i64),
{
    Value::Number(0)
}

/// The `eq` primitive entry (placeholder).
pub fn eq() -> (r: Value)
    ensures
        r == Value::Number(0i64),
{
    Value::Number(0)
}

/// The `lt` primitive entry (placeholder).
pub fn lt() -> (r: Value)
    ensures
        r == Value::Number(0i64),
{
    Value::Number(0)
}

/// The `neg` primitive entry (placeholder).
pub fn neg() -> (r: Value)
    ensures
        r == Value::Number(0i64),
{
    Value::Number(0)
}

/// The `s` combinator entry (placeholder).
pub fn s() -> (r: Value)
    ensures
        r == Value::Number(0i64),
{
    Value::Number(0)
}

/// The `c` combinator entry (placeholder).
pub fn c() -> (r: Value)
    ensures
        r == Value::Number(0i64),
{
    Value::Number(0)
}

/// The `b` combinator entry (placeholder).
pub fn b() -> (r: Value)
    ensures
        r == Value::Number(0i64),
{
    Value::Number(0)
}

/// The `t` (true selector) entry (placeholder).
pub fn t() -> (r: Value)
    ensures
        r == Value::Number(0i64),
{
    Value::Number(0)
}

/// The `f` (false selector) entry (placeholder).
pub fn f() -> (r: Value)
    ensures
        r == Value::Number(0i64),
{
    Value::Number(0)
}

/// The `pwr2` primitive entry (placeholder).
pub fn pwr2() -> (r: Value)
    ensures
        r == Value::Number(0i64),
{
    Value::Number(0)
}

/// The `i` (identity) entry (placeholder).
pub fn i() -> (r: Value)
    ensures
        r == Value::Number(0i64),
{
    Value::Number(0)
}

/// The list constructor: a two-argument function.
pub fn cons() -> (r: Value)
    ensures
        r == Value::Func2(Func2 { op: Op2::Cons }),
{
    Value::Func2(Func2 { op: Op2::Cons })
}

/// The `head` primitive entry (placeholder).
pub fn head() -> (r: Value)
    ensures
        r == Value::Number(0i64),
{
    Value::Number(0)
}

/// The `tail` primitive entry (placeholder).
pub fn tail() -> (r: Value)
    ensures
        r == Value::Number(0i64),
{
    Value::Number(0)
}

/// The empty list.
pub fn nil() -> (r: Value)
    ensures
        r matches Value::List(l) && l@ == Seq::<Value>::empty(),
{
    Value::List(Vec::new())
}

/// The `isnil` primitive entry (placeholder).
pub fn isnil() -> (r: Value)
    ensures
        r == Value::Number(0i64),
{
    Value::Number(0)
}

/// Pushes `left` onto the list `right`.
fn push_onto(left: Value, right: Value) -> (r: Value)
    requires
        right is List,
    ensures
        ({
            match right {
                Value::List(l) => r matches Value::List(l2) && l2@ == l@.push(left),
                _ => false,
            }
        }),
{
    match right {
        Value::List(mut l) => {
            l.push(left);
            Value::List(l)
        },
        _ => {
            proof {
                assert(false);
            }
            Value::Number(0)
        },
    }
}

/// Applies a function value to one argument: a two-argument primitive
/// captures its first argument; a one-argument function computes.  The
/// only computing primitive is list construction, whose second argument
/// must be a list.
pub fn ap(left: Value, right: Value) -> (r: Value)
    requires
        left is Func1 || left is Func2,
        (left matches Value::Func1(g) && g.op == Op2::Cons) ==> right is List,
    ensures
        ({
            match left {
                Value::Func2(g) => r matches Value::Func1(h) && h.op == g.op && *h.first == right,
                Value::Func1(g) => match right {
                    Value::List(l) => r matches Value::List(l2) && l2@ == l@.push(*g.first),
                    _ => false,
                },
                _ => false,
            }
        }),
{
    match left {
        Value::Func1(g) => {
            let Func1 { op, first } = g;
            match op {
                Op2::Cons => push_onto(*first, right),
            }
        },
        Value::Func2(g) => Value::Func1(Func1 { op: g.op, first: Box::new(right) }),
        _ => {
            proof {
                assert(false);
            }
            Value::Number(0)
        },
    }
}

} // verus!
