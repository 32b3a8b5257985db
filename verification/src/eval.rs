//! The graph reduction engine: a lazy evaluator with result memoization
//! over a shared, mutable expression graph.
//!
//! The graph is an arena of nodes addressed by index.  Reduction brings a
//! node to weak head normal form (WHNF) and writes the resolved form back
//! into the node, so a given node is reduced at most once no matter how
//! many parents reach it.
//!
//! The evaluator is a small-step machine: a control word (evaluate a node,
//! or return a WHNF value), a stack of pending frames, and the arena.  One
//! step of the machine is given exactly by the specification function
//! [`spec_step`]; the executable [`State::step`] mirrors it, and every run
//! of the machine is a chain of such steps.  This pins the evaluator down
//! to the rules below:
//!
//! - a `Variable` is substituted by its environment binding;
//! - numbers, builtins and partial applications are already in WHNF;
//! - `Apply(f, x)` forces `f` to WHNF and dispatches on the head:
//!   strict unary numeric ops (`inc`, `dec`, `neg`, `pwr2`) force their
//!   argument to a number; binary ops (`add`, `mul`, `div`, `eq`, `lt`)
//!   force both; `i` returns its argument unevaluated; `head`/`tail`
//!   rewrite to `Apply(x, true)` / `Apply(x, false)`; `nil` applied to
//!   anything is `true`; `isnil` inspects whether its argument is
//!   literally the `nil` builtin; `true`/`false` select one branch without
//!   forcing the other; the combinators rewrite `S a b c = (a c)(b c)`,
//!   `C a b c = (a c) b`, `B a b c = a (b c)`, and `cons a b c = (c a) b`.
//!
//! The engine performs no I/O of its own: network sending is strictly
//! the interaction driver's concern, so the protocol-level primitives
//! (`send`, `draw` and their relatives) halt reduction with an
//! unreducible-expression error, and drawing is done outside the machine
//! by reading reduced values back as nested lists.  Reduction step and
//! graph growth budgets are explicit, and running out of one is reported
//! as its own error: the machine itself never spins silently.

use vstd::prelude::*;
use vstd::arithmetic::power2::pow2;
use vstd::bits::lemma_u64_shl_is_mul;
use crate::errors::Error;
use crate::modem::mag;
use crate::syntax::{Var, VarKey, var_key, var_eq, Token, Stmt};

verus! {

/// The primitive function identifiers, one per builtin token.
#[derive(Debug, Clone, Copy, PartialEq, Eq, Structural)]
pub enum BuiltIn {
    Inc,
    Dec,
    Add,
    Mul,
    Div,
    Eq,
    Lt,
    Mod,
    Dem,
    Send,
    Neg,
    S,
    C,
    B,
    True,
    False,
    Pwr2,
    I,
    Cons,
    Head,
    Tail,
    Nil,
    IsNil,
    Draw,
    Checkerboard,
    MultiDraw,
    If0,
    Interact,
    F38,
    StatelessDraw,
    StatefulDraw,
    Galaxy,
}

/// The stages of a partial application of a builtin: `Op_0` holds the
/// first argument of a multi-argument builtin, `Op_1` the first two.
#[allow(non_camel_case_types)]
#[derive(Debug, Clone, Copy, PartialEq, Eq, Structural)]
pub enum PartialAp {
    Add_0,
    Mul_0,
    Div_0,
    Eq_0,
    Lt_0,
    S_1,
    S_0,
    C_1,
    C_0,
    B_1,
    B_0,
    True_0,
    False_0,
    Cons_0,
    Cons_1,
    If0_0,
    If0_1,
    Interact_0,
    Interact_1,
    F38_0,
}

/// The content of one node of the expression graph.  Children are arena
/// indices, so a node's identity is stable and shared: multiple parents
/// may reference the same child.  `Var` holds an interned variable index
/// into the state's name table.
#[derive(Debug, Clone, Copy, PartialEq, Eq, Structural)]
pub enum Value {
    Var(u32),
    Number(i64),
    BuiltIn(BuiltIn),
    Apply(usize, usize),
    Partial0(PartialAp, usize),
    Partial1(PartialAp, usize, usize),
}

/// A pending obligation of the reduction machine.
#[derive(Debug, Clone, Copy, PartialEq, Eq, Structural)]
pub enum Frame {
    /// Write the value being returned into this node (memoization) and
    /// keep returning it.
    Write(usize),
    /// The function part of an application has been forced; dispatch on it
    /// with this argument node.
    Apply1(usize),
    /// The argument of a strict unary numeric op has been forced; compute.
    Num1(BuiltIn),
    /// The second operand of a binary op has been forced; next force the
    /// node held here (the first operand).
    BinSnd(BuiltIn, usize),
    /// Both operands of a binary op are known (second held here); compute.
    BinFst(BuiltIn, i64),
    /// The scrutinee of `if0` has been forced; select the first node on
    /// zero, the second otherwise.
    If0Sel(usize, usize),
}

/// The control word of the reduction machine.
#[derive(Debug, Clone, Copy, PartialEq, Eq, Structural)]
pub enum Ctrl {
    /// Bring this node to WHNF.
    Eval(usize),
    /// A WHNF value is being handed to the topmost frame.
    Ret(Value),
    /// The machine has halted with a WHNF value.
    Done(Value),
    /// The machine has halted with an error.
    Fail(Error),
}

/// A configuration of the reduction machine, the mathematical state that
/// the contracts speak about: the arena, the (read-only) environment, the
/// frame stack, the control word, and the count of primitive computations
/// performed so far.
#[verifier::ext_equal]
pub struct Cfg {
    pub nodes: Seq<Value>,
    pub env: Seq<Option<usize>>,
    pub stack: Seq<Frame>,
    pub ctrl: Ctrl,
    pub ops: nat,
}

impl Cfg {
    /// Halts the machine with an error.
    pub open spec fn fail(self, e: Error) -> Cfg {
        Cfg { ctrl: Ctrl::Fail(e), ..self }
    }

    /// Hands `w` to the topmost frame.
    pub open spec fn ret(self, w: Value) -> Cfg {
        Cfg { ctrl: Ctrl::Ret(w), ..self }
    }

    /// Turns to reducing node `id`.
    pub open spec fn go(self, id: usize) -> Cfg {
        Cfg { ctrl: Ctrl::Eval(id), ..self }
    }

    /// Pushes a frame.
    pub open spec fn pushf(self, f: Frame) -> Cfg {
        Cfg { stack: self.stack.push(f), ..self }
    }

    /// Counts one primitive computation (saturating, as the executable
    /// counter does).
    pub open spec fn bump(self) -> Cfg {
        Cfg {
            ops: if self.ops < u64::MAX {
                self.ops + 1
            } else {
                self.ops
            },
            ..self
        }
    }

    /// Whether the machine has halted.
    pub open spec fn is_halted(self) -> bool {
        self.ctrl is Done || self.ctrl is Fail
    }
}

/// Truncating integer division (the quotient is rounded toward zero), the
/// semantics of the `div` primitive.
pub open spec fn tdiv(a: int, b: int) -> int {
    let q = (mag(a) / mag(b)) as int;
    if (a < 0) == (b < 0) {
        q
    } else {
        -q
    }
}

/// The result of a strict unary numeric primitive on `n`.
pub open spec fn spec_unop(c: Cfg, op: BuiltIn, n: i64) -> Cfg {
    match op {
        BuiltIn::Inc => if n == i64::MAX {
            c.fail(Error::NumericOverflow)
        } else {
            c.bump().ret(Value::Number((n + 1) as i64))
        },
        BuiltIn::Dec => if n == i64::MIN {
            c.fail(Error::NumericOverflow)
        } else {
            c.bump().ret(Value::Number((n - 1) as i64))
        },
        BuiltIn::Neg => if n == i64::MIN {
            c.fail(Error::NumericOverflow)
        } else {
            c.bump().ret(Value::Number((-n) as i64))
        },
        BuiltIn::Pwr2 => if 0 <= n <= 62 {
            c.bump().ret(Value::Number(pow2(n as nat) as i64))
        } else {
            c.fail(Error::NumericOverflow)
        },
        _ => c.fail(Error::UnreducibleExpression),
    }
}

/// The result of a binary numeric primitive on `a` and `b` (in this
/// order: `a` was the first-applied argument).
pub open spec fn spec_binop(c: Cfg, op: BuiltIn, a: i64, b: i64) -> Cfg {
    match op {
        BuiltIn::Add => if i64::MIN <= a + b <= i64::MAX {
            c.bump().ret(Value::Number((a + b) as i64))
        } else {
            c.fail(Error::NumericOverflow)
        },
        BuiltIn::Mul => if i64::MIN <= a * b <= i64::MAX {
            c.bump().ret(Value::Number((a * b) as i64))
        } else {
            c.fail(Error::NumericOverflow)
        },
        BuiltIn::Div => if b == 0 {
            c.fail(Error::TypeMismatch)
        } else if i64::MIN <= tdiv(a as int, b as int) <= i64::MAX {
            c.bump().ret(Value::Number(tdiv(a as int, b as int) as i64))
        } else {
            c.fail(Error::NumericOverflow)
        },
        BuiltIn::Eq => c.bump().ret(
            Value::BuiltIn(
                if a == b {
                    BuiltIn::True
                } else {
                    BuiltIn::False
                },
            ),
        ),
        BuiltIn::Lt => c.bump().ret(
            Value::BuiltIn(
                if a < b {
                    BuiltIn::True
                } else {
                    BuiltIn::False
                },
            ),
        ),
        _ => c.fail(Error::UnreducibleExpression),
    }
}

/// The 45 nodes of the graph that the two-argument `interact` helper
/// builds: `if0 (head a1)` selecting between the finished round
/// `[i (head (tail a1)), multidraw (head (tail (tail a1)))]` and a
/// recursive `interact` round fed by `send (head (tail (tail a1)))`.
/// `base` is the index where the first of these nodes will live.
pub open spec fn f38_nodes(base: nat, a0: usize, a1: usize) -> Seq<Value> {
    seq![
        Value::BuiltIn(BuiltIn::Head),                                     // base +  0
        Value::Apply((base + 0) as usize, a1),                             // +  1: head a1
        Value::BuiltIn(BuiltIn::If0),                                      // +  2
        Value::Apply((base + 2) as usize, (base + 1) as usize),            // +  3: if0 (head a1)
        Value::BuiltIn(BuiltIn::Tail),                                     // +  4
        Value::Apply((base + 4) as usize, a1),                             // +  5: tail a1
        Value::BuiltIn(BuiltIn::Head),                                     // +  6
        Value::Apply((base + 6) as usize, (base + 5) as usize),            // +  7: head (tail a1)
        Value::BuiltIn(BuiltIn::I),                                        // +  8
        Value::Apply((base + 8) as usize, (base + 7) as usize),            // +  9: i (head (tail a1))
        Value::BuiltIn(BuiltIn::Cons),                                     // + 10
        Value::Apply((base + 10) as usize, (base + 9) as usize),           // + 11: cons (i ...)
        Value::BuiltIn(BuiltIn::Tail),                                     // + 12
        Value::Apply((base + 12) as usize, a1),                            // + 13: tail a1
        Value::BuiltIn(BuiltIn::Tail),                                     // + 14
        Value::Apply((base + 14) as usize, (base + 13) as usize),          // + 15: tail (tail a1)
        Value::BuiltIn(BuiltIn::Head),                                     // + 16
        Value::Apply((base + 16) as usize, (base + 15) as usize),          // + 17: head (tail (tail a1))
        Value::BuiltIn(BuiltIn::MultiDraw),                                // + 18
        Value::Apply((base + 18) as usize, (base + 17) as usize),          // + 19: multidraw ...
        Value::BuiltIn(BuiltIn::Cons),                                     // + 20
        Value::Apply((base + 20) as usize, (base + 19) as usize),          // + 21: cons (multidraw ...)
        Value::BuiltIn(BuiltIn::Nil),                                      // + 22
        Value::Apply((base + 21) as usize, (base + 22) as usize),          // + 23: (cons (multidraw ...)) nil
        Value::Apply((base + 11) as usize, (base + 23) as usize),          // + 24: the finished-round list
        Value::Apply((base + 3) as usize, (base + 24) as usize),           // + 25: if0 applied to it
        Value::BuiltIn(BuiltIn::Interact),                                 // + 26
        Value::Apply((base + 26) as usize, a0),                            // + 27: interact a0
        Value::BuiltIn(BuiltIn::Tail),                                     // + 28
        Value::Apply((base + 28) as usize, a1),                            // + 29: tail a1
        Value::BuiltIn(BuiltIn::Head),                                     // + 30
        Value::Apply((base + 30) as usize, (base + 29) as usize),          // + 31: head (tail a1)
        Value::BuiltIn(BuiltIn::I),                                        // + 32
        Value::Apply((base + 32) as usize, (base + 31) as usize),          // + 33: i (head (tail a1))
        Value::Apply((base + 27) as usize, (base + 33) as usize),          // + 34: interact a0 (i ...)
        Value::BuiltIn(BuiltIn::Tail),                                     // + 35
        Value::Apply((base + 35) as usize, a1),                            // + 36: tail a1
        Value::BuiltIn(BuiltIn::Tail),                                     // + 37
        Value::Apply((base + 37) as usize, (base + 36) as usize),          // + 38: tail (tail a1)
        Value::BuiltIn(BuiltIn::Head),                                     // + 39
        Value::Apply((base + 39) as usize, (base + 38) as usize),          // + 40: head (tail (tail a1))
        Value::BuiltIn(BuiltIn::Send),                                     // + 41
        Value::Apply((base + 41) as usize, (base + 40) as usize),          // + 42: send ...
        Value::Apply((base + 34) as usize, (base + 42) as usize),          // + 43: the recursive round
        Value::Apply((base + 25) as usize, (base + 43) as usize),          // + 44: the whole dispatch
    ]
}

/// Dispatches the WHNF value `w` applied to the (unevaluated) node `x`.
/// The topmost frame has already been popped from `c`.
pub open spec fn spec_apply(c: Cfg, w: Value, x: usize) -> Cfg {
    let base = c.nodes.len();
    match w {
        Value::BuiltIn(b) => match b {
            BuiltIn::Inc => c.pushf(Frame::Num1(BuiltIn::Inc)).go(x),
            BuiltIn::Dec => c.pushf(Frame::Num1(BuiltIn::Dec)).go(x),
            BuiltIn::Neg => c.pushf(Frame::Num1(BuiltIn::Neg)).go(x),
            BuiltIn::Pwr2 => c.pushf(Frame::Num1(BuiltIn::Pwr2)).go(x),
            BuiltIn::I => c.go(x),
            BuiltIn::Add => c.ret(Value::Partial0(PartialAp::Add_0, x)),
            BuiltIn::Mul => c.ret(Value::Partial0(PartialAp::Mul_0, x)),
            BuiltIn::Div => c.ret(Value::Partial0(PartialAp::Div_0, x)),
            BuiltIn::Eq => c.ret(Value::Partial0(PartialAp::Eq_0, x)),
            BuiltIn::Lt => c.ret(Value::Partial0(PartialAp::Lt_0, x)),
            BuiltIn::S => c.ret(Value::Partial0(PartialAp::S_0, x)),
            BuiltIn::C => c.ret(Value::Partial0(PartialAp::C_0, x)),
            BuiltIn::B => c.ret(Value::Partial0(PartialAp::B_0, x)),
            BuiltIn::True => c.ret(Value::Partial0(PartialAp::True_0, x)),
            BuiltIn::False => c.ret(Value::Partial0(PartialAp::False_0, x)),
            BuiltIn::Cons => c.ret(Value::Partial0(PartialAp::Cons_0, x)),
            BuiltIn::If0 => c.ret(Value::Partial0(PartialAp::If0_0, x)),
            BuiltIn::Interact => c.ret(Value::Partial0(PartialAp::Interact_0, x)),
            BuiltIn::F38 => c.ret(Value::Partial0(PartialAp::F38_0, x)),
            BuiltIn::Head => Cfg {
                nodes: c.nodes.push(Value::BuiltIn(BuiltIn::True)).push(
                    Value::Apply(x, base as usize),
                ),
                ..c
            }.go((base + 1) as usize),
            BuiltIn::Tail => Cfg {
                nodes: c.nodes.push(Value::BuiltIn(BuiltIn::False)).push(
                    Value::Apply(x, base as usize),
                ),
                ..c
            }.go((base + 1) as usize),
            BuiltIn::Nil => c.ret(Value::BuiltIn(BuiltIn::True)),
            BuiltIn::IsNil => if x < c.nodes.len() {
                if c.nodes[x as int] == Value::BuiltIn(BuiltIn::Nil) {
                    c.ret(Value::BuiltIn(BuiltIn::True))
                } else {
                    c.ret(Value::BuiltIn(BuiltIn::False))
                }
            } else {
                c.fail(Error::UnreducibleExpression)
            },
            _ => c.fail(Error::UnreducibleExpression),
        },
        Value::Partial0(p, a0) => match p {
            PartialAp::Add_0 => c.pushf(Frame::BinSnd(BuiltIn::Add, a0)).go(x),
            PartialAp::Mul_0 => c.pushf(Frame::BinSnd(BuiltIn::Mul, a0)).go(x),
            PartialAp::Div_0 => c.pushf(Frame::BinSnd(BuiltIn::Div, a0)).go(x),
            PartialAp::Eq_0 => c.pushf(Frame::BinSnd(BuiltIn::Eq, a0)).go(x),
            PartialAp::Lt_0 => c.pushf(Frame::BinSnd(BuiltIn::Lt, a0)).go(x),
            PartialAp::S_0 => c.ret(Value::Partial1(PartialAp::S_1, a0, x)),
            PartialAp::C_0 => c.ret(Value::Partial1(PartialAp::C_1, a0, x)),
            PartialAp::B_0 => c.ret(Value::Partial1(PartialAp::B_1, a0, x)),
            PartialAp::Cons_0 => c.ret(Value::Partial1(PartialAp::Cons_1, a0, x)),
            PartialAp::If0_0 => c.ret(Value::Partial1(PartialAp::If0_1, a0, x)),
            PartialAp::Interact_0 => c.ret(Value::Partial1(PartialAp::Interact_1, a0, x)),
            PartialAp::True_0 => c.go(a0),
            PartialAp::False_0 => c.go(x),
            PartialAp::F38_0 => Cfg { nodes: c.nodes + f38_nodes(base, a0, x), ..c }.go(
                (base + 44) as usize,
            ),
            _ => c.fail(Error::UnreducibleExpression),
        },
        Value::Partial1(p, a0, a1) => match p {
            PartialAp::S_1 => Cfg {
                nodes: c.nodes.push(Value::Apply(a0, x)).push(Value::Apply(a1, x)).push(
                    Value::Apply(base as usize, (base + 1) as usize),
                ),
                ..c
            }.go((base + 2) as usize),
            PartialAp::C_1 => Cfg {
                nodes: c.nodes.push(Value::Apply(a0, x)).push(
                    Value::Apply(base as usize, a1),
                ),
                ..c
            }.go((base + 1) as usize),
            PartialAp::B_1 => Cfg {
                nodes: c.nodes.push(Value::Apply(a1, x)).push(
                    Value::Apply(a0, base as usize),
                ),
                ..c
            }.go((base + 1) as usize),
            PartialAp::Cons_1 => Cfg {
                nodes: c.nodes.push(Value::Apply(x, a0)).push(
                    Value::Apply(base as usize, a1),
                ),
                ..c
            }.go((base + 1) as usize),
            PartialAp::If0_1 => c.pushf(Frame::If0Sel(a1, x)).go(a0),
            PartialAp::Interact_1 => Cfg {
                nodes: c.nodes.push(Value::BuiltIn(BuiltIn::F38)).push(
                    Value::Apply(base as usize, a0),
                ).push(Value::Apply(a0, a1)).push(
                    Value::Apply((base + 2) as usize, x),
                ).push(Value::Apply((base + 1) as usize, (base + 3) as usize)),
                ..c
            }.go((base + 4) as usize),
            _ => c.fail(Error::UnreducibleExpression),
        },
        Value::Number(_) => c.fail(Error::TypeMismatch),
        Value::Var(_) => c.fail(Error::UnreducibleExpression),
        Value::Apply(_, _) => c.fail(Error::UnreducibleExpression),
    }
}

/// One step when the control is `Eval(id)`.
pub open spec fn spec_step_eval(c: Cfg, id: usize) -> Cfg {
    if id >= c.nodes.len() {
        c.fail(Error::UnreducibleExpression)
    } else {
        match c.nodes[id as int] {
            Value::Apply(f, x) => c.pushf(Frame::Write(id)).pushf(Frame::Apply1(x)).go(f),
            Value::Var(v) => if v < c.env.len() {
                match c.env[v as int] {
                    Some(t) => c.pushf(Frame::Write(id)).go(t),
                    None => c.fail(Error::UnboundVariable),
                }
            } else {
                c.fail(Error::UnboundVariable)
            },
            w => c.ret(w),
        }
    }
}

/// One step when the control is `Ret(w)`.
pub open spec fn spec_step_ret(c: Cfg, w: Value) -> Cfg {
    if c.stack.len() == 0 {
        Cfg { ctrl: Ctrl::Done(w), ..c }
    } else {
        let fr = c.stack.last();
        let p = Cfg { stack: c.stack.drop_last(), ..c };
        match fr {
            Frame::Write(id) => if id < p.nodes.len() {
                Cfg { nodes: p.nodes.update(id as int, w), ..p }.ret(w)
            } else {
                p.ret(w)
            },
            Frame::Apply1(x) => spec_apply(p, w, x),
            Frame::Num1(op) => match w {
                Value::Number(n) => spec_unop(p, op, n),
                _ => p.fail(Error::TypeMismatch),
            },
            Frame::BinSnd(op, a0) => match w {
                Value::Number(n) => p.pushf(Frame::BinFst(op, n)).go(a0),
                _ => p.fail(Error::TypeMismatch),
            },
            Frame::BinFst(op, b) => match w {
                Value::Number(n) => spec_binop(p, op, n, b),
                _ => p.fail(Error::TypeMismatch),
            },
            Frame::If0Sel(t, e) => if w == Value::Number(0i64) {
                p.go(t)
            } else {
                p.go(e)
            },
        }
    }
}

/// One step of the reduction machine.  A halted configuration steps to
/// itself; a configuration whose arena has grown past the addressable
/// range halts with an error.
pub open spec fn spec_step(c: Cfg) -> Cfg {
    if c.is_halted() {
        c
    } else if c.nodes.len() + 64 > usize::MAX {
        c.fail(Error::ArenaLimitExceeded)
    } else {
        match c.ctrl {
            Ctrl::Eval(id) => spec_step_eval(c, id),
            Ctrl::Ret(w) => spec_step_ret(c, w),
            _ => c,
        }
    }
}

/// The configuration after `n` steps.
pub open spec fn spec_run(c: Cfg, n: nat) -> Cfg
    decreases n,
{
    if n == 0 {
        c
    } else {
        spec_step(spec_run(c, (n - 1) as nat))
    }
}

/// Once halted, the machine stays in exactly that configuration.
pub proof fn lemma_halt_stable(c: Cfg, n: nat, m: nat)
    requires
        n <= m,
        spec_run(c, n).is_halted(),
    ensures
        spec_run(c, m) == spec_run(c, n),
    decreases m,
{
    if m > n {
        lemma_halt_stable(c, n, (m - 1) as nat);
    }
}

/// Running `a + b` steps is running `a` steps and then `b` steps.
pub proof fn lemma_run_add(c: Cfg, a: nat, b: nat)
    ensures
        spec_run(c, a + b) == spec_run(spec_run(c, a), b),
    decreases b,
{
    if b > 0 {
        lemma_run_add(c, a, (b - 1) as nat);
    }
}

/// One step never halts with a budget error: those are reported by the
/// runner, not by the machine.
proof fn lemma_step_no_limit(c: Cfg)
    requires
        c.ctrl != Ctrl::Fail(Error::StepLimitExceeded),
        c.ctrl != Ctrl::Fail(Error::DepthLimitExceeded),
        c.ctrl != Ctrl::Fail(Error::TransportFailure),
        c.ctrl != Ctrl::Fail(Error::MalformedEncoding),
        c.ctrl != Ctrl::Fail(Error::ProtocolShapeError),
    ensures
        spec_step(c).ctrl != Ctrl::Fail(Error::StepLimitExceeded),
        spec_step(c).ctrl != Ctrl::Fail(Error::DepthLimitExceeded),
        spec_step(c).ctrl != Ctrl::Fail(Error::TransportFailure),
        spec_step(c).ctrl != Ctrl::Fail(Error::MalformedEncoding),
        spec_step(c).ctrl != Ctrl::Fail(Error::ProtocolShapeError),
{
}

/// No configuration of a run halts with a budget error.
pub proof fn lemma_run_no_limit(c: Cfg, n: nat)
    requires
        c.ctrl != Ctrl::Fail(Error::StepLimitExceeded),
        c.ctrl != Ctrl::Fail(Error::DepthLimitExceeded),
        c.ctrl != Ctrl::Fail(Error::TransportFailure),
        c.ctrl != Ctrl::Fail(Error::MalformedEncoding),
        c.ctrl != Ctrl::Fail(Error::ProtocolShapeError),
    ensures
        spec_run(c, n).ctrl != Ctrl::Fail(Error::StepLimitExceeded),
        spec_run(c, n).ctrl != Ctrl::Fail(Error::DepthLimitExceeded),
        spec_run(c, n).ctrl != Ctrl::Fail(Error::TransportFailure),
        spec_run(c, n).ctrl != Ctrl::Fail(Error::MalformedEncoding),
        spec_run(c, n).ctrl != Ctrl::Fail(Error::ProtocolShapeError),
    decreases n,
{
    if n > 0 {
        lemma_run_no_limit(c, (n - 1) as nat);
        lemma_step_no_limit(spec_run(c, (n - 1) as nat));
    }
}

/// The graph-building view of a state: the arena, the name table (as
/// variable keys), and the environment.
#[verifier::ext_equal]
pub struct GraphState {
    pub nodes: Seq<Value>,
    pub names: Seq<VarKey>,
    pub env: Seq<Option<usize>>,
}

/// The first index at which `key` occurs in `names`.
pub open spec fn spec_find_name(names: Seq<VarKey>, key: VarKey) -> Option<int>
    decreases names.len(),
{
    if names.len() == 0 {
        None
    } else if names[0] == key {
        Some(0)
    } else {
        match spec_find_name(names.skip(1), key) {
            None => None,
            Some(i) => Some(i + 1),
        }
    }
}

/// Interning a variable: an existing key keeps its index, a new key is
/// appended to the name table together with an empty binding slot.
pub open spec fn spec_intern(g: GraphState, key: VarKey) -> (GraphState, int) {
    match spec_find_name(g.names, key) {
        Some(i) => (g, i),
        None => (
            GraphState { names: g.names.push(key), env: g.env.push(None), ..g },
            g.names.len() as int,
        ),
    }
}

/// The builtin that a (non-`Ap`, non-`Var`, non-`Number`) token denotes.
pub open spec fn token_builtin(t: Token) -> BuiltIn {
    match t {
        Token::Inc => BuiltIn::Inc,
        Token::Dec => BuiltIn::Dec,
        Token::Add => BuiltIn::Add,
        Token::Mul => BuiltIn::Mul,
        Token::Div => BuiltIn::Div,
        Token::Eq => BuiltIn::Eq,
        Token::Lt => BuiltIn::Lt,
        Token::Neg => BuiltIn::Neg,
        Token::S => BuiltIn::S,
        Token::C => BuiltIn::C,
        Token::B => BuiltIn::B,
        Token::True => BuiltIn::True,
        Token::False => BuiltIn::False,
        Token::Pwr2 => BuiltIn::Pwr2,
        Token::I => BuiltIn::I,
        Token::Cons => BuiltIn::Cons,
        Token::Head => BuiltIn::Head,
        Token::Tail => BuiltIn::Tail,
        Token::Nil => BuiltIn::Nil,
        Token::IsNil => BuiltIn::IsNil,
        Token::Mod => BuiltIn::Mod,
        Token::Dem => BuiltIn::Dem,
        Token::Send => BuiltIn::Send,
        Token::Draw => BuiltIn::Draw,
        Token::Checkerboard => BuiltIn::Checkerboard,
        Token::MultiDraw => BuiltIn::MultiDraw,
        Token::If0 => BuiltIn::If0,
        Token::Interact => BuiltIn::Interact,
        Token::StatelessDraw => BuiltIn::StatelessDraw,
        Token::StatefulDraw => BuiltIn::StatefulDraw,
        Token::Galaxy => BuiltIn::Galaxy,
        _ => BuiltIn::I,
    }
}

/// Feeds one token to the compile stack (tokens are consumed from the
/// back of the sequence): `Ap` combines the top two entries into an
/// application node, everything else allocates a leaf node.  `None` on
/// stack underflow or when the variable table outgrows the index range.
pub open spec fn spec_push_token(g: GraphState, stk: Seq<usize>, t: Token) -> Option<
    (GraphState, Seq<usize>),
> {
    match t {
        Token::Ap => if stk.len() >= 2 {
            let x = stk.last();
            let v = stk[stk.len() - 2];
            Some(
                (
                    GraphState { nodes: g.nodes.push(Value::Apply(x, v)), ..g },
                    stk.drop_last().drop_last().push(g.nodes.len() as usize),
                ),
            )
        } else {
            None
        },
        Token::Var(v) => {
            let p = spec_intern(g, var_key(v));
            if p.1 <= u32::MAX {
                Some(
                    (
                        GraphState { nodes: p.0.nodes.push(Value::Var(p.1 as u32)), ..p.0 },
                        stk.push(p.0.nodes.len() as usize),
                    ),
                )
            } else {
                None
            }
        },
        Token::Number(n) => Some(
            (
                GraphState { nodes: g.nodes.push(Value::Number(n)), ..g },
                stk.push(g.nodes.len() as usize),
            ),
        ),
        _ => Some(
            (
                GraphState { nodes: g.nodes.push(Value::BuiltIn(token_builtin(t))), ..g },
                stk.push(g.nodes.len() as usize),
            ),
        ),
    }
}

/// Folds a whole token sequence into the compile stack, from the back.
pub open spec fn spec_compile_tokens(g: GraphState, stk: Seq<usize>, tokens: Seq<Token>) -> Option<
    (GraphState, Seq<usize>),
>
    decreases tokens.len(),
{
    if tokens.len() == 0 {
        Some((g, stk))
    } else {
        match spec_push_token(g, stk, tokens.last()) {
            None => None,
            Some((g2, s2)) => spec_compile_tokens(g2, s2, tokens.drop_last()),
        }
    }
}

/// Compiles a token sequence into the graph: the result is the root node
/// of the built expression, provided the sequence is well-formed (the
/// compile stack ends with exactly one entry).
pub open spec fn spec_compile(g: GraphState, tokens: Seq<Token>) -> Option<(GraphState, usize)> {
    match spec_compile_tokens(g, Seq::empty(), tokens) {
        None => None,
        Some((g2, stk)) => if stk.len() == 1 {
            Some((g2, stk[0]))
        } else {
            None
        },
    }
}

proof fn lemma_compile_none(g: GraphState, tokens: Seq<Token>)
    requires
        spec_compile_tokens(g, Seq::empty(), tokens) is None,
    ensures
        spec_compile(g, tokens) is None,
{
}

/// Interpreting a statement: compile its body, then bind its variable to
/// the root of the built graph.
pub open spec fn spec_interpret(g: GraphState, key: VarKey, tokens: Seq<Token>) -> Option<
    GraphState,
> {
    match spec_compile(g, tokens) {
        None => None,
        Some((g2, root)) => {
            let p = spec_intern(g2, key);
            if 0 <= p.1 < p.0.env.len() {
                Some(GraphState { env: p.0.env.update(p.1, Some(root)), ..p.0 })
            } else {
                None
            }
        },
    }
}

/// The binding of a variable: its interned slot's content.
pub open spec fn spec_binding(g: GraphState, key: VarKey) -> Option<usize> {
    match spec_find_name(g.names, key) {
        None => None,
        Some(i) => if 0 <= i < g.env.len() {
            g.env[i]
        } else {
            None
        },
    }
}

proof fn lemma_find_name_from(names: Seq<VarKey>, key: VarKey, i: nat)
    requires
        i <= names.len(),
        forall|j: int| 0 <= j < i ==> names[j] != key,
    ensures
        spec_find_name(names, key) == match spec_find_name(names.skip(i as int), key) {
            None => None::<int>,
            Some(j) => Some(j + i),
        },
    decreases i,
{
    if i == 0 {
        assert(names.skip(0) =~= names);
    } else {
        assert(names[0] != key);
        let s1 = names.skip(1);
        assert(forall|j: int| 0 <= j < i - 1 ==> s1[j] != key);
        lemma_find_name_from(s1, key, (i - 1) as nat);
        assert(s1.skip(i - 1) =~= names.skip(i as int));
    }
}

/// The evaluation state: the node arena, the environment (one binding
/// slot per interned variable), the name table that assigns each
/// variable its interned index, and the count of primitive computations
/// performed so far (the memoization witness: a reduction that is served
/// from a memoized node performs no computation again).
#[derive(Debug)]
pub struct State {
    pub nodes: Vec<Value>,
    pub env: Vec<Option<usize>>,
    pub names: Vec<Var>,
    pub ops: u64,
}

/// The machine configuration formed by a state together with a frame
/// stack and a control word.
pub open spec fn cfg(s: State, stack: Seq<Frame>, ctrl: Ctrl) -> Cfg {
    Cfg { nodes: s.nodes@, env: s.env@, stack, ctrl, ops: s.ops as nat }
}

impl State {
    /// An empty state: no nodes, no bindings.
    pub fn new() -> (r: State)
        ensures
            r.nodes@ == Seq::<Value>::empty(),
            r.env@ == Seq::<Option<usize>>::empty(),
            r.names@ == Seq::<Var>::empty(),
            r.ops == 0,
    {
        State { nodes: Vec::new(), env: Vec::new(), names: Vec::new(), ops: 0 }
    }

    /// Appends a node to the arena and returns its index.
    pub(crate) fn push_node(&mut self, v: Value) -> (r: usize)
        ensures
            final(self).nodes@ == old(self).nodes@.push(v),
            r == old(self).nodes@.len(),
            final(self).env == old(self).env,
            final(self).names == old(self).names,
            final(self).ops == old(self).ops,
    {
        let r = self.nodes.len();
        self.nodes.push(v);
        r
    }

    /// Counts one primitive computation.
    fn count_op(&mut self)
        ensures
            final(self).nodes == old(self).nodes,
            final(self).env == old(self).env,
            final(self).names == old(self).names,
            final(self).ops as nat == (if old(self).ops < u64::MAX {
                old(self).ops + 1
            } else {
                old(self).ops as int
            }),
    {
        if self.ops < u64::MAX {
            self.ops = self.ops + 1;
        }
    }

    /// Performs a strict unary numeric primitive.
    fn do_unop(&mut self, op: BuiltIn, n: i64) -> (r: Ctrl)
        ensures
            final(self).names == old(self).names,
            final(self).nodes == old(self).nodes,
            final(self).env == old(self).env,
            ({
                let c1 = spec_unop(cfg(*old(self), Seq::empty(), Ctrl::Ret(Value::Number(n))), op, n);
                final(self).ops as nat == c1.ops && r == c1.ctrl
            }),
    {
        match op {
            BuiltIn::Inc => {
                if n == i64::MAX {
                    Ctrl::Fail(Error::NumericOverflow)
                } else {
                    self.count_op();
                    Ctrl::Ret(Value::Number(n + 1))
                }
            },
            BuiltIn::Dec => {
                if n == i64::MIN {
                    Ctrl::Fail(Error::NumericOverflow)
                } else {
                    self.count_op();
                    Ctrl::Ret(Value::Number(n - 1))
                }
            },
            BuiltIn::Neg => {
                if n == i64::MIN {
                    Ctrl::Fail(Error::NumericOverflow)
                } else {
                    self.count_op();
                    Ctrl::Ret(Value::Number(-n))
                }
            },
            BuiltIn::Pwr2 => {
                if 0 <= n && n <= 62 {
                    self.count_op();
                    let p: u64 = 1u64 << (n as u64);
                    proof {
                        vstd::arithmetic::power2::lemma2_to64();
                        vstd::arithmetic::power2::lemma2_to64_rest();
                        lemma_u64_shl_is_mul(1u64, n as u64);
                    }
                    Ctrl::Ret(Value::Number(p as i64))
                } else {
                    Ctrl::Fail(Error::NumericOverflow)
                }
            },
            _ => Ctrl::Fail(Error::UnreducibleExpression),
        }
    }

    /// Performs a binary numeric primitive on `a` and `b` (in this order:
    /// `a` was the first-applied argument).
    fn do_binop(&mut self, op: BuiltIn, a: i64, b: i64) -> (r: Ctrl)
        ensures
            final(self).names == old(self).names,
            final(self).nodes == old(self).nodes,
            final(self).env == old(self).env,
            ({
                let c1 = spec_binop(cfg(*old(self), Seq::empty(), Ctrl::Ret(Value::Number(a))), op, a, b);
                final(self).ops as nat == c1.ops && r == c1.ctrl
            }),
    {
        match op {
            BuiltIn::Add => {
                match a.checked_add(b) {
                    Some(s) => {
                        self.count_op();
                        Ctrl::Ret(Value::Number(s))
                    },
                    None => Ctrl::Fail(Error::NumericOverflow),
                }
            },
            BuiltIn::Mul => {
                match a.checked_mul(b) {
                    Some(s) => {
                        self.count_op();
                        Ctrl::Ret(Value::Number(s))
                    },
                    None => Ctrl::Fail(Error::NumericOverflow),
                }
            },
            BuiltIn::Div => {
                if b == 0 {
                    Ctrl::Fail(Error::TypeMismatch)
                } else {
                    let am: u64 = if a == i64::MIN {
                        0x8000_0000_0000_0000u64
                    } else if a < 0 {
                        (-a) as u64
                    } else {
                        a as u64
                    };
                    let bm: u64 = if b == i64::MIN {
                        0x8000_0000_0000_0000u64
                    } else if b < 0 {
                        (-b) as u64
                    } else {
                        b as u64
                    };
                    let qm = am / bm;
                    let negative = (a < 0) != (b < 0);
                    proof {
                        assert(am as nat == mag(a as int));
                        assert(bm as nat == mag(b as int));
                    }
                    if negative {
                        self.count_op();
                        let q: i64 = if qm == 0x8000_0000_0000_0000u64 {
                            i64::MIN
                        } else {
                            -(qm as i64)
                        };
                        Ctrl::Ret(Value::Number(q))
                    } else {
                        if qm <= 0x7fff_ffff_ffff_ffffu64 {
                            self.count_op();
                            Ctrl::Ret(Value::Number(qm as i64))
                        } else {
                            Ctrl::Fail(Error::NumericOverflow)
                        }
                    }
                }
            },
            BuiltIn::Eq => {
                self.count_op();
                Ctrl::Ret(
                    Value::BuiltIn(
                        if a == b {
                            BuiltIn::True
                        } else {
                            BuiltIn::False
                        },
                    ),
                )
            },
            BuiltIn::Lt => {
                self.count_op();
                Ctrl::Ret(
                    Value::BuiltIn(
                        if a < b {
                            BuiltIn::True
                        } else {
                            BuiltIn::False
                        },
                    ),
                )
            },
            _ => Ctrl::Fail(Error::UnreducibleExpression),
        }
    }

    /// Builds the graph that reduces one round of the builtin `interact`
    /// protocol helper: `protocol` is the node holding the protocol
    /// function, `args` the node holding the flag/state/data list.
    /// Returns the root of the built graph.
    #[verifier::rlimit(100)]
    pub fn construct_f38_builtin(&mut self, protocol: usize, args: usize) -> (r: usize)
        requires
            old(self).nodes@.len() + 64 <= usize::MAX,
        ensures
            final(self).nodes@ == old(self).nodes@ + f38_nodes(
                old(self).nodes@.len(),
                protocol,
                args,
            ),
            r == old(self).nodes@.len() + 44,
            final(self).env == old(self).env,
            final(self).names == old(self).names,
            final(self).ops == old(self).ops,
    {
        let base = self.nodes.len();
        self.push_node(Value::BuiltIn(BuiltIn::Head));
        self.push_node(Value::Apply(base + 0, args));
        self.push_node(Value::BuiltIn(BuiltIn::If0));
        self.push_node(Value::Apply(base + 2, base + 1));
        self.push_node(Value::BuiltIn(BuiltIn::Tail));
        self.push_node(Value::Apply(base + 4, args));
        self.push_node(Value::BuiltIn(BuiltIn::Head));
        self.push_node(Value::Apply(base + 6, base + 5));
        self.push_node(Value::BuiltIn(BuiltIn::I));
        self.push_node(Value::Apply(base + 8, base + 7));
        self.push_node(Value::BuiltIn(BuiltIn::Cons));
        self.push_node(Value::Apply(base + 10, base + 9));
        self.push_node(Value::BuiltIn(BuiltIn::Tail));
        self.push_node(Value::Apply(base + 12, args));
        self.push_node(Value::BuiltIn(BuiltIn::Tail));
        self.push_node(Value::Apply(base + 14, base + 13));
        self.push_node(Value::BuiltIn(BuiltIn::Head));
        self.push_node(Value::Apply(base + 16, base + 15));
        self.push_node(Value::BuiltIn(BuiltIn::MultiDraw));
        self.push_node(Value::Apply(base + 18, base + 17));
        self.push_node(Value::BuiltIn(BuiltIn::Cons));
        self.push_node(Value::Apply(base + 20, base + 19));
        self.push_node(Value::BuiltIn(BuiltIn::Nil));
        self.push_node(Value::Apply(base + 21, base + 22));
        self.push_node(Value::Apply(base + 11, base + 23));
        self.push_node(Value::Apply(base + 3, base + 24));
        self.push_node(Value::BuiltIn(BuiltIn::Interact));
        self.push_node(Value::Apply(base + 26, protocol));
        self.push_node(Value::BuiltIn(BuiltIn::Tail));
        self.push_node(Value::Apply(base + 28, args));
        self.push_node(Value::BuiltIn(BuiltIn::Head));
        self.push_node(Value::Apply(base + 30, base + 29));
        self.push_node(Value::BuiltIn(BuiltIn::I));
        self.push_node(Value::Apply(base + 32, base + 31));
        self.push_node(Value::Apply(base + 27, base + 33));
        self.push_node(Value::BuiltIn(BuiltIn::Tail));
        self.push_node(Value::Apply(base + 35, args));
        self.push_node(Value::BuiltIn(BuiltIn::Tail));
        self.push_node(Value::Apply(base + 37, base + 36));
        self.push_node(Value::BuiltIn(BuiltIn::Head));
        self.push_node(Value::Apply(base + 39, base + 38));
        self.push_node(Value::BuiltIn(BuiltIn::Send));
        self.push_node(Value::Apply(base + 41, base + 40));
        self.push_node(Value::Apply(base + 34, base + 42));
        let root = self.push_node(Value::Apply(base + 25, base + 43));
        proof {
            assert(self.nodes@ =~= old(self).nodes@ + f38_nodes(
                old(self).nodes@.len(),
                protocol,
                args,
            ));
        }
        root
    }

    /// Dispatches the WHNF value `w` applied to node `x`; the frame that
    /// carried `x` has already been popped from `stack`.
    fn step_apply(&mut self, stack: &mut Vec<Frame>, w: Value, x: usize) -> (r: Ctrl)
        requires
            old(self).nodes@.len() + 64 <= usize::MAX,
        ensures
            cfg(*final(self), final(stack)@, r) == spec_apply(
                cfg(*old(self), old(stack)@, Ctrl::Ret(w)),
                w,
                x,
            ),
            final(self).names == old(self).names,
            final(self).env == old(self).env,
    {
        let base = self.nodes.len();
        match w {
            Value::BuiltIn(b) => {
                match b {
                    BuiltIn::Inc => {
                        stack.push(Frame::Num1(BuiltIn::Inc));
                        Ctrl::Eval(x)
                    },
                    BuiltIn::Dec => {
                        stack.push(Frame::Num1(BuiltIn::Dec));
                        Ctrl::Eval(x)
                    },
                    BuiltIn::Neg => {
                        stack.push(Frame::Num1(BuiltIn::Neg));
                        Ctrl::Eval(x)
                    },
                    BuiltIn::Pwr2 => {
                        stack.push(Frame::Num1(BuiltIn::Pwr2));
                        Ctrl::Eval(x)
                    },
                    BuiltIn::I => Ctrl::Eval(x),
                    BuiltIn::Add => Ctrl::Ret(Value::Partial0(PartialAp::Add_0, x)),
                    BuiltIn::Mul => Ctrl::Ret(Value::Partial0(PartialAp::Mul_0, x)),
                    BuiltIn::Div => Ctrl::Ret(Value::Partial0(PartialAp::Div_0, x)),
                    BuiltIn::Eq => Ctrl::Ret(Value::Partial0(PartialAp::Eq_0, x)),
                    BuiltIn::Lt => Ctrl::Ret(Value::Partial0(PartialAp::Lt_0, x)),
                    BuiltIn::S => Ctrl::Ret(Value::Partial0(PartialAp::S_0, x)),
                    BuiltIn::C => Ctrl::Ret(Value::Partial0(PartialAp::C_0, x)),
                    BuiltIn::B => Ctrl::Ret(Value::Partial0(PartialAp::B_0, x)),
                    BuiltIn::True => Ctrl::Ret(Value::Partial0(PartialAp::True_0, x)),
                    BuiltIn::False => Ctrl::Ret(Value::Partial0(PartialAp::False_0, x)),
                    BuiltIn::Cons => Ctrl::Ret(Value::Partial0(PartialAp::Cons_0, x)),
                    BuiltIn::If0 => Ctrl::Ret(Value::Partial0(PartialAp::If0_0, x)),
                    BuiltIn::Interact => Ctrl::Ret(Value::Partial0(PartialAp::Interact_0, x)),
                    BuiltIn::F38 => Ctrl::Ret(Value::Partial0(PartialAp::F38_0, x)),
                    BuiltIn::Head => {
                        self.push_node(Value::BuiltIn(BuiltIn::True));
                        let a = self.push_node(Value::Apply(x, base));
                        Ctrl::Eval(a)
                    },
                    BuiltIn::Tail => {
                        self.push_node(Value::BuiltIn(BuiltIn::False));
                        let a = self.push_node(Value::Apply(x, base));
                        Ctrl::Eval(a)
                    },
                    BuiltIn::Nil => Ctrl::Ret(Value::BuiltIn(BuiltIn::True)),
                    BuiltIn::IsNil => {
                        if x < self.nodes.len() {
                            if self.nodes[x] == Value::BuiltIn(BuiltIn::Nil) {
                                Ctrl::Ret(Value::BuiltIn(BuiltIn::True))
                            } else {
                                Ctrl::Ret(Value::BuiltIn(BuiltIn::False))
                            }
                        } else {
                            Ctrl::Fail(Error::UnreducibleExpression)
                        }
                    },
                    _ => Ctrl::Fail(Error::UnreducibleExpression),
                }
            },
            Value::Partial0(p, a0) => {
                match p {
                    PartialAp::Add_0 => {
                        stack.push(Frame::BinSnd(BuiltIn::Add, a0));
                        Ctrl::Eval(x)
                    },
                    PartialAp::Mul_0 => {
                        stack.push(Frame::BinSnd(BuiltIn::Mul, a0));
                        Ctrl::Eval(x)
                    },
                    PartialAp::Div_0 => {
                        stack.push(Frame::BinSnd(BuiltIn::Div, a0));
                        Ctrl::Eval(x)
                    },
                    PartialAp::Eq_0 => {
                        stack.push(Frame::BinSnd(BuiltIn::Eq, a0));
                        Ctrl::Eval(x)
                    },
                    PartialAp::Lt_0 => {
                        stack.push(Frame::BinSnd(BuiltIn::Lt, a0));
                        Ctrl::Eval(x)
                    },
                    PartialAp::S_0 => Ctrl::Ret(Value::Partial1(PartialAp::S_1, a0, x)),
                    PartialAp::C_0 => Ctrl::Ret(Value::Partial1(PartialAp::C_1, a0, x)),
                    PartialAp::B_0 => Ctrl::Ret(Value::Partial1(PartialAp::B_1, a0, x)),
                    PartialAp::Cons_0 => Ctrl::Ret(Value::Partial1(PartialAp::Cons_1, a0, x)),
                    PartialAp::If0_0 => Ctrl::Ret(Value::Partial1(PartialAp::If0_1, a0, x)),
                    PartialAp::Interact_0 => Ctrl::Ret(
                        Value::Partial1(PartialAp::Interact_1, a0, x),
                    ),
                    PartialAp::True_0 => Ctrl::Eval(a0),
                    PartialAp::False_0 => Ctrl::Eval(x),
                    PartialAp::F38_0 => {
                        let root = self.construct_f38_builtin(a0, x);
                        Ctrl::Eval(root)
                    },
                    _ => Ctrl::Fail(Error::UnreducibleExpression),
                }
            },
            Value::Partial1(p, a0, a1) => {
                match p {
                    PartialAp::S_1 => {
                        self.push_node(Value::Apply(a0, x));
                        self.push_node(Value::Apply(a1, x));
                        let a = self.push_node(Value::Apply(base, base + 1));
                        Ctrl::Eval(a)
                    },
                    PartialAp::C_1 => {
                        self.push_node(Value::Apply(a0, x));
                        let a = self.push_node(Value::Apply(base, a1));
                        Ctrl::Eval(a)
                    },
                    PartialAp::B_1 => {
                        self.push_node(Value::Apply(a1, x));
                        let a = self.push_node(Value::Apply(a0, base));
                        Ctrl::Eval(a)
                    },
                    PartialAp::Cons_1 => {
                        self.push_node(Value::Apply(x, a0));
                        let a = self.push_node(Value::Apply(base, a1));
                        Ctrl::Eval(a)
                    },
                    PartialAp::If0_1 => {
                        stack.push(Frame::If0Sel(a1, x));
                        Ctrl::Eval(a0)
                    },
                    PartialAp::Interact_1 => {
                        self.push_node(Value::BuiltIn(BuiltIn::F38));
                        self.push_node(Value::Apply(base, a0));
                        self.push_node(Value::Apply(a0, a1));
                        self.push_node(Value::Apply(base + 2, x));
                        let a = self.push_node(Value::Apply(base + 1, base + 3));
                        Ctrl::Eval(a)
                    },
                    _ => Ctrl::Fail(Error::UnreducibleExpression),
                }
            },
            Value::Number(_) => Ctrl::Fail(Error::TypeMismatch),
            Value::Var(_) => Ctrl::Fail(Error::UnreducibleExpression),
            Value::Apply(_, _) => Ctrl::Fail(Error::UnreducibleExpression),
        }
    }

    /// One step when the control is `Eval(id)`.
    fn step_eval(&mut self, stack: &mut Vec<Frame>, id: usize) -> (r: Ctrl)
        ensures
            cfg(*final(self), final(stack)@, r) == spec_step_eval(
                cfg(*old(self), old(stack)@, Ctrl::Eval(id)),
                id,
            ),
            final(self).names == old(self).names,
            final(self).env == old(self).env,
    {
        if id >= self.nodes.len() {
            return Ctrl::Fail(Error::UnreducibleExpression);
        }
        let v = self.nodes[id];
        match v {
            Value::Apply(f, x) => {
                stack.push(Frame::Write(id));
                stack.push(Frame::Apply1(x));
                Ctrl::Eval(f)
            },
            Value::Var(vi) => {
                if (vi as usize) < self.env.len() {
                    match self.env[vi as usize] {
                        Some(t) => {
                            stack.push(Frame::Write(id));
                            Ctrl::Eval(t)
                        },
                        None => Ctrl::Fail(Error::UnboundVariable),
                    }
                } else {
                    Ctrl::Fail(Error::UnboundVariable)
                }
            },
            w => Ctrl::Ret(w),
        }
    }

    /// One step when the control is `Ret(w)`.
    fn step_ret(&mut self, stack: &mut Vec<Frame>, w: Value) -> (r: Ctrl)
        requires
            old(self).nodes@.len() + 64 <= usize::MAX,
        ensures
            cfg(*final(self), final(stack)@, r) == spec_step_ret(
                cfg(*old(self), old(stack)@, Ctrl::Ret(w)),
                w,
            ),
            final(self).names == old(self).names,
            final(self).env == old(self).env,
    {
        match stack.pop() {
            None => Ctrl::Done(w),
            Some(fr) => match fr {
                Frame::Write(id) => {
                    if id < self.nodes.len() {
                        self.nodes[id] = w;
                    }
                    Ctrl::Ret(w)
                },
                Frame::Apply1(x) => self.step_apply(stack, w, x),
                Frame::Num1(op) => match w {
                    Value::Number(n) => self.do_unop(op, n),
                    _ => Ctrl::Fail(Error::TypeMismatch),
                },
                Frame::BinSnd(op, a0) => match w {
                    Value::Number(n) => {
                        stack.push(Frame::BinFst(op, n));
                        Ctrl::Eval(a0)
                    },
                    _ => Ctrl::Fail(Error::TypeMismatch),
                },
                Frame::BinFst(op, b) => match w {
                    Value::Number(n) => self.do_binop(op, n, b),
                    _ => Ctrl::Fail(Error::TypeMismatch),
                },
                Frame::If0Sel(t, e) => {
                    if w == Value::Number(0i64) {
                        Ctrl::Eval(t)
                    } else {
                        Ctrl::Eval(e)
                    }
                },
            },
        }
    }

    /// One step of the reduction machine, exactly [`spec_step`].
    pub fn step(&mut self, stack: &mut Vec<Frame>, ctrl: Ctrl) -> (r: Ctrl)
        ensures
            cfg(*final(self), final(stack)@, r) == spec_step(cfg(*old(self), old(stack)@, ctrl)),
            final(self).names == old(self).names,
            final(self).env == old(self).env,
    {
        match ctrl {
            Ctrl::Done(_) => ctrl,
            Ctrl::Fail(_) => ctrl,
            _ => {
                if self.nodes.len() > usize::MAX - 64 {
                    return Ctrl::Fail(Error::ArenaLimitExceeded);
                }
                match ctrl {
                    Ctrl::Eval(id) => self.step_eval(stack, id),
                    Ctrl::Ret(w) => self.step_ret(stack, w),
                    _ => {
                        proof {
                            assert(false);
                        }
                        ctrl
                    },
                }
            },
        }
    }

    /// Runs the machine from node `root` with an empty stack for at most
    /// `max_steps` steps.  On success the result is the value of the
    /// unique halting configuration of the step chain; the memoized arena
    /// and the computation count of that configuration are left in the
    /// state.  The environment is never changed by a run.
    pub fn run_machine(&mut self, root: usize, max_steps: u64) -> (r: Result<Value, Error>)
        ensures
            final(self).env == old(self).env,
            final(self).names == old(self).names,
            ({
                let c0 = cfg(*old(self), Seq::empty(), Ctrl::Eval(root));
                match r {
                    Ok(v) => exists|n: nat|
                        n <= max_steps && (#[trigger] spec_run(c0, n)).ctrl == Ctrl::Done(v)
                            && spec_run(c0, n).nodes == final(self).nodes@ && spec_run(c0, n).ops
                            == final(self).ops as nat,
                    Err(e) => if e == Error::StepLimitExceeded {
                        !spec_run(c0, max_steps as nat).is_halted() && spec_run(
                            c0,
                            max_steps as nat,
                        ).nodes == final(self).nodes@ && spec_run(c0, max_steps as nat).ops
                            == final(self).ops as nat
                    } else {
                        exists|n: nat|
                            n <= max_steps && (#[trigger] spec_run(c0, n)).ctrl == Ctrl::Fail(e)
                                && spec_run(c0, n).nodes == final(self).nodes@ && spec_run(
                                c0,
                                n,
                            ).ops == final(self).ops as nat
                    },
                }
            }),
    {
        let mut stack: Vec<Frame> = Vec::new();
        let mut ctrl = Ctrl::Eval(root);
        let ghost c0 = cfg(*self, Seq::empty(), Ctrl::Eval(root));
        let mut k: u64 = 0;
        while k < max_steps
            invariant
                k <= max_steps,
                self.env == old(self).env,
                self.names == old(self).names,
                c0 == cfg(*old(self), Seq::empty(), Ctrl::Eval(root)),
                cfg(*self, stack@, ctrl) == spec_run(c0, k as nat),
            decreases max_steps - k,
        {
            match ctrl {
                Ctrl::Done(v) => {
                    return Ok(v);
                },
                Ctrl::Fail(e) => {
                    proof {
                        lemma_run_no_limit(c0, k as nat);
                    }
                    return Err(e);
                },
                _ => {},
            }
            ctrl = self.step(&mut stack, ctrl);
            k = k + 1;
        }
        match ctrl {
            Ctrl::Done(v) => Ok(v),
            Ctrl::Fail(e) => {
                proof {
                    lemma_run_no_limit(c0, k as nat);
                }
                Err(e)
            },
            _ => Err(Error::StepLimitExceeded),
        }
    }
}

/// The graph-building view of a state.
pub open spec fn gstate(s: State) -> GraphState {
    GraphState {
        nodes: s.nodes@,
        names: s.names@.map_values(|v: Var| var_key(v)),
        env: s.env@,
    }
}

impl State {
    /// Finds the interned index of a variable, if it has one.
    pub fn find_name(&self, var: &Var) -> (r: Option<usize>)
        ensures
            match spec_find_name(gstate(*self).names, var_key(*var)) {
                None => r is None,
                Some(i) => r == Some(i as usize) && 0 <= i < gstate(*self).names.len()
                    && gstate(*self).names.len() <= usize::MAX,
            },
    {
        let ghost keys = gstate(*self).names;
        let mut i: usize = 0;
        while i < self.names.len()
            invariant
                i <= self.names@.len(),
                keys == gstate(*self).names,
                keys.len() == self.names@.len(),
                forall|j: int| 0 <= j < i ==> keys[j] != var_key(*var),
                forall|j: int| 0 <= j < keys.len() ==> keys[j] == var_key(self.names@[j]),
            decreases self.names@.len() - i,
        {
            if var_eq(&self.names[i], var) {
                proof {
                    lemma_find_name_from(keys, var_key(*var), i as nat);
                    assert(keys.skip(i as int)[0] == keys[i as int]);
                    assert(spec_find_name(keys.skip(i as int), var_key(*var)) == Some(0int));
                }
                return Some(i);
            }
            i = i + 1;
        }
        proof {
            lemma_find_name_from(keys, var_key(*var), i as nat);
            assert(keys.skip(i as int).len() == 0);
        }
        None
    }

    /// Interns a variable: an existing name keeps its index, a new name
    /// gets the next index and an empty binding slot.
    pub fn intern(&mut self, var: Var) -> (r: usize)
        ensures
            ({
                let p = spec_intern(gstate(*old(self)), var_key(var));
                gstate(*final(self)) == p.0 && r == p.1
            }),
            final(self).nodes == old(self).nodes,
            final(self).ops == old(self).ops,
    {
        match self.find_name(&var) {
            Some(i) => {
                proof {
                    assert(gstate(*self) =~~= spec_intern(gstate(*self), var_key(var)).0);
                }
                i
            },
            None => {
                let r = self.names.len();
                self.names.push(var);
                self.env.push(None);
                proof {
                    assert(gstate(*self).names =~= gstate(*old(self)).names.push(var_key(var)));
                    assert(gstate(*self) =~~= spec_intern(gstate(*old(self)), var_key(var)).0);
                }
                r
            },
        }
    }

    /// Compiles a token sequence into the graph and returns the root node
    /// of the built expression.  The error is reported on a malformed
    /// sequence (stack underflow at an application, more or fewer than one
    /// expression at the end, or a variable table grown past its index
    /// range); the partially built nodes stay in the arena.
    pub fn compile(&mut self, code: Vec<Token>) -> (r: Result<usize, Error>)
        ensures
            final(self).ops == old(self).ops,
            match spec_compile(gstate(*old(self)), code@) {
                Some(p) => r == Ok::<usize, Error>(p.1) && gstate(*final(self)) == p.0,
                None => r == Err::<usize, Error>(Error::UnreducibleExpression),
            },
    {
        let ghost g0 = gstate(*old(self));
        let mut stk: Vec<usize> = Vec::new();
        let mut i: usize = code.len();
        proof {
            assert(stk@ =~= Seq::<usize>::empty());
            assert(code@.take(i as int) =~= code@);
        }
        while i > 0
            invariant
                i <= code@.len(),
                self.ops == old(self).ops,
                g0 == gstate(*old(self)),
                spec_compile_tokens(g0, Seq::empty(), code@) == spec_compile_tokens(
                    gstate(*self),
                    stk@,
                    code@.take(i as int),
                ),
            decreases i,
        {
            i = i - 1;
            let ghost g_pre = gstate(*self);
            let ghost stk_pre = stk@;
            proof {
                assert(code@.take(i + 1).drop_last() =~= code@.take(i as int));
                assert(code@.take(i + 1).last() == code@[i as int]);
            }
            let t = code[i].clone();
            proof {
                assert(t == code@[i as int]);
            }
            match t {
                Token::Ap => {
                    if stk.len() < 2 {
                        proof {
                            assert(spec_push_token(g_pre, stk_pre, code@[i as int]) is None);
                            assert(spec_compile_tokens(g0, Seq::<usize>::empty(), code@) is None);
                            lemma_compile_none(g0, code@);
                        }
                        return Err(Error::UnreducibleExpression);
                    }
                    let x = stk.pop().unwrap();
                    let v = stk.pop().unwrap();
                    let id = self.push_node(Value::Apply(x, v));
                    stk.push(id);
                },
                Token::Var(v) => {
                    let ghost key = var_key(v);
                    let vid = self.intern(v);
                    if vid > (u32::MAX as usize) {
                        proof {
                            assert(spec_intern(g_pre, key).1 == vid);
                            assert(spec_push_token(g_pre, stk_pre, code@[i as int]) is None);
                            assert(spec_compile_tokens(g0, Seq::<usize>::empty(), code@) is None);
                            lemma_compile_none(g0, code@);
                        }
                        return Err(Error::UnreducibleExpression);
                    }
                    let id = self.push_node(Value::Var(vid as u32));
                    stk.push(id);
                },
                Token::Number(n) => {
                    let id = self.push_node(Value::Number(n));
                    stk.push(id);
                },
                Token::Inc => {
                    let id = self.push_node(Value::BuiltIn(BuiltIn::Inc));
                    stk.push(id);
                },
                Token::Dec => {
                    let id = self.push_node(Value::BuiltIn(BuiltIn::Dec));
                    stk.push(id);
                },
                Token::Add => {
                    let id = self.push_node(Value::BuiltIn(BuiltIn::Add));
                    stk.push(id);
                },
                Token::Mul => {
                    let id = self.push_node(Value::BuiltIn(BuiltIn::Mul));
                    stk.push(id);
                },
                Token::Div => {
                    let id = self.push_node(Value::BuiltIn(BuiltIn::Div));
                    stk.push(id);
                },
                Token::Eq => {
                    let id = self.push_node(Value::BuiltIn(BuiltIn::Eq));
                    stk.push(id);
                },
                Token::Lt => {
                    let id = self.push_node(Value::BuiltIn(BuiltIn::Lt));
                    stk.push(id);
                },
                Token::Neg => {
                    let id = self.push_node(Value::BuiltIn(BuiltIn::Neg));
                    stk.push(id);
                },
                Token::S => {
                    let id = self.push_node(Value::BuiltIn(BuiltIn::S));
                    stk.push(id);
                },
                Token::C => {
                    let id = self.push_node(Value::BuiltIn(BuiltIn::C));
                    stk.push(id);
                },
                Token::B => {
                    let id = self.push_node(Value::BuiltIn(BuiltIn::B));
                    stk.push(id);
                },
                Token::True => {
                    let id = self.push_node(Value::BuiltIn(BuiltIn::True));
                    stk.push(id);
                },
                Token::False => {
                    let id = self.push_node(Value::BuiltIn(BuiltIn::False));
                    stk.push(id);
                },
                Token::Pwr2 => {
                    let id = self.push_node(Value::BuiltIn(BuiltIn::Pwr2));
                    stk.push(id);
                },
                Token::I => {
                    let id = self.push_node(Value::BuiltIn(BuiltIn::I));
                    stk.push(id);
                },
                Token::Cons => {
                    let id = self.push_node(Value::BuiltIn(BuiltIn::Cons));
                    stk.push(id);
                },
                Token::Head => {
                    let id = self.push_node(Value::BuiltIn(BuiltIn::Head));
                    stk.push(id);
                },
                Token::Tail => {
                    let id = self.push_node(Value::BuiltIn(BuiltIn::Tail));
                    stk.push(id);
                },
                Token::Nil => {
                    let id = self.push_node(Value::BuiltIn(BuiltIn::Nil));
                    stk.push(id);
                },
                Token::IsNil => {
                    let id = self.push_node(Value::BuiltIn(BuiltIn::IsNil));
                    stk.push(id);
                },
                Token::Mod => {
                    let id = self.push_node(Value::BuiltIn(BuiltIn::Mod));
                    stk.push(id);
                },
                Token::Dem => {
                    let id = self.push_node(Value::BuiltIn(BuiltIn::Dem));
                    stk.push(id);
                },
                Token::Send => {
                    let id = self.push_node(Value::BuiltIn(BuiltIn::Send));
                    stk.push(id);
                },
                Token::Draw => {
                    let id = self.push_node(Value::BuiltIn(BuiltIn::Draw));
                    stk.push(id);
                },
                Token::Checkerboard => {
                    let id = self.push_node(Value::BuiltIn(BuiltIn::Checkerboard));
                    stk.push(id);
                },
                Token::MultiDraw => {
                    let id = self.push_node(Value::BuiltIn(BuiltIn::MultiDraw));
                    stk.push(id);
                },
                Token::If0 => {
                    let id = self.push_node(Value::BuiltIn(BuiltIn::If0));
                    stk.push(id);
                },
                Token::Interact => {
                    let id = self.push_node(Value::BuiltIn(BuiltIn::Interact));
                    stk.push(id);
                },
                Token::StatelessDraw => {
                    let id = self.push_node(Value::BuiltIn(BuiltIn::StatelessDraw));
                    stk.push(id);
                },
                Token::StatefulDraw => {
                    let id = self.push_node(Value::BuiltIn(BuiltIn::StatefulDraw));
                    stk.push(id);
                },
                Token::Galaxy => {
                    let id = self.push_node(Value::BuiltIn(BuiltIn::Galaxy));
                    stk.push(id);
                },
            }
            proof {
                assert(spec_push_token(g_pre, stk_pre, code@[i as int]) == Some(
                    (gstate(*self), stk@),
                ));
            }
        }
        proof {
            assert(code@.take(0) =~= Seq::<Token>::empty());
        }
        if stk.len() == 1 {
            Ok(stk[0])
        } else {
            Err(Error::UnreducibleExpression)
        }
    }

    /// Compiles a statement's body and binds its variable to the built
    /// expression.  On a malformed body the error is reported and the
    /// binding is left as it was.
    pub fn interpret(&mut self, stmt: Stmt) -> (r: Result<(), Error>)
        ensures
            final(self).ops == old(self).ops,
            match spec_interpret(gstate(*old(self)), var_key(stmt.var), stmt.code@) {
                Some(g) => r == Ok::<(), Error>(()) && gstate(*final(self)) == g,
                None => r == Err::<(), Error>(Error::UnreducibleExpression),
            },
    {
        let Stmt { var, code } = stmt;
        let root = match self.compile(code) {
            Ok(root) => root,
            Err(e) => {
                return Err(e);
            },
        };
        let vid = self.intern(var);
        if vid < self.env.len() {
            self.env[vid] = Some(root);
            proof {
                assert(gstate(*self) =~~= spec_interpret(
                    gstate(*old(self)),
                    var_key(stmt.var),
                    stmt.code@,
                ).unwrap());
            }
            Ok(())
        } else {
            Err(Error::UnreducibleExpression)
        }
    }

    /// Looks up a binding and reduces it to WHNF with the machine, under
    /// a budget of `max_steps` machine steps.
    pub fn eval(&mut self, var: &Var, max_steps: u64) -> (r: Result<Value, Error>)
        ensures
            final(self).env == old(self).env,
            final(self).names == old(self).names,
            ({
                match spec_binding(gstate(*old(self)), var_key(*var)) {
                    None => r == Err::<Value, Error>(Error::UnboundVariable) && final(self).nodes
                        == old(self).nodes && final(self).ops == old(self).ops,
                    Some(root) => {
                        let c0 = cfg(*old(self), Seq::empty(), Ctrl::Eval(root));
                        match r {
                            Ok(v) => exists|n: nat|
                                n <= max_steps && (#[trigger] spec_run(c0, n)).ctrl == Ctrl::Done(
                                    v,
                                ) && spec_run(c0, n).nodes == final(self).nodes@ && spec_run(
                                    c0,
                                    n,
                                ).ops == final(self).ops as nat,
                            Err(e) => if e == Error::StepLimitExceeded {
                                !spec_run(c0, max_steps as nat).is_halted() && spec_run(
                                    c0,
                                    max_steps as nat,
                                ).nodes == final(self).nodes@ && spec_run(c0, max_steps as nat).ops
                                    == final(self).ops as nat
                            } else {
                                exists|n: nat|
                                    n <= max_steps && (#[trigger] spec_run(c0, n)).ctrl
                                        == Ctrl::Fail(e)
                                        && spec_run(c0, n).nodes == final(self).nodes@
                                        && spec_run(c0, n).ops == final(self).ops as nat
                            },
                        }
                    },
                }
            }),
    {
        let root = match self.find_name(var) {
            None => {
                return Err(Error::UnboundVariable);
            },
            Some(i) => {
                if i < self.env.len() {
                    match self.env[i] {
                        Some(root) => root,
                        None => {
                            return Err(Error::UnboundVariable);
                        },
                    }
                } else {
                    return Err(Error::UnboundVariable);
                }
            },
        };
        self.run_machine(root, max_steps)
    }
}


} // verus!
