//! The nested-list bridge: a bidirectional mapping between the engine's
//! function-graph values and the codec's data-only nested-list values.
//! Reifying a nested list builds `cons`/`nil`/number nodes; reading one
//! back reduces nodes to WHNF on demand and destructures pair values.

use vstd::prelude::*;
use crate::errors::Error;
use crate::nested::NestedList;
use crate::eval::{
    State, Value, BuiltIn, PartialAp, Ctrl, Cfg, spec_run, lemma_halt_stable,
    lemma_run_no_limit,
};

verus! {

/// Whether a run from `c0` halts within `max` steps.
pub open spec fn halts_within(c0: Cfg, max: nat) -> bool {
    exists|n: nat| n <= max && (#[trigger] spec_run(c0, n)).is_halted()
}

/// The configuration a run settles in within `max` steps: its unique
/// halting configuration when it halts in time, the configuration after
/// `max` steps otherwise.
pub open spec fn run_outcome(c0: Cfg, max: nat) -> Cfg {
    if halts_within(c0, max) {
        spec_run(c0, choose|n: nat| n <= max && (#[trigger] spec_run(c0, n)).is_halted())
    } else {
        spec_run(c0, max)
    }
}

/// A halting configuration reached within the budget is the run's outcome.
pub proof fn lemma_run_outcome(c0: Cfg, max: nat, n: nat)
    requires
        n <= max,
        spec_run(c0, n).is_halted(),
    ensures
        run_outcome(c0, max) == spec_run(c0, n),
{
    let n2 = choose|n2: nat| n2 <= max && (#[trigger] spec_run(c0, n2)).is_halted();
    if n2 <= n {
        lemma_halt_stable(c0, n2, n);
    } else {
        lemma_halt_stable(c0, n, n2);
    }
}

/// Reifying a nested list as graph nodes: a number becomes a number
/// node, `Nil` the `nil` builtin, and a pair the application
/// `(cons head) tail`, with the head reified first.  Returns the grown
/// arena and the root node.
pub open spec fn spec_reify(nodes: Seq<Value>, v: NestedList) -> (Seq<Value>, usize)
    decreases v,
{
    match v {
        NestedList::Nil => (nodes.push(Value::BuiltIn(BuiltIn::Nil)), nodes.len() as usize),
        NestedList::Number(n) => (nodes.push(Value::Number(n)), nodes.len() as usize),
        NestedList::Cons(h, t) => {
            let ph = spec_reify(nodes, *h);
            let pt = spec_reify(ph.0, *t);
            let base = pt.0.len();
            (
                pt.0.push(Value::BuiltIn(BuiltIn::Cons)).push(
                    Value::Apply(base as usize, ph.1),
                ).push(Value::Apply((base + 1) as usize, pt.1)),
                (base + 2) as usize,
            )
        },
    }
}

/// Reading a nested list out of the graph: reduce the node within the
/// step budget; a number or `nil` is a leaf, a pair value descends into
/// head and tail with one unit of depth budget spent.  Returns the arena
/// and computation count left behind by the reductions, and the value or
/// the error.
pub open spec fn spec_eval_nested(
    nodes: Seq<Value>,
    env: Seq<Option<usize>>,
    ops: nat,
    id: usize,
    max_steps: u64,
    max_depth: u64,
) -> (Seq<Value>, nat, Result<NestedList, Error>)
    decreases max_depth,
{
    if max_depth == 0 {
        (nodes, ops, Err(Error::DepthLimitExceeded))
    } else {
        let c0 = Cfg { nodes, env, stack: Seq::empty(), ctrl: Ctrl::Eval(id), ops };
        if !halts_within(c0, max_steps as nat) {
            (
                spec_run(c0, max_steps as nat).nodes,
                spec_run(c0, max_steps as nat).ops,
                Err(Error::StepLimitExceeded),
            )
        } else {
            let ch = run_outcome(c0, max_steps as nat);
            match ch.ctrl {
                Ctrl::Fail(e) => (ch.nodes, ch.ops, Err(e)),
                Ctrl::Done(w) => match w {
                    Value::Number(n) => (ch.nodes, ch.ops, Ok(NestedList::Number(n))),
                    Value::BuiltIn(BuiltIn::Nil) => (ch.nodes, ch.ops, Ok(NestedList::Nil)),
                    Value::Partial1(PartialAp::Cons_1, h, t) => {
                        let rh = spec_eval_nested(
                            ch.nodes,
                            env,
                            ch.ops,
                            h,
                            max_steps,
                            (max_depth - 1) as u64,
                        );
                        match rh.2 {
                            Err(e) => (rh.0, rh.1, Err(e)),
                            Ok(hv) => {
                                let rt = spec_eval_nested(
                                    rh.0,
                                    env,
                                    rh.1,
                                    t,
                                    max_steps,
                                    (max_depth - 1) as u64,
                                );
                                match rt.2 {
                                    Err(e) => (rt.0, rt.1, Err(e)),
                                    Ok(tv) => (
                                        rt.0,
                                        rt.1,
                                        Ok(NestedList::Cons(Box::new(hv), Box::new(tv))),
                                    ),
                                }
                            },
                        }
                    },
                    _ => (ch.nodes, ch.ops, Err(Error::TypeMismatch)),
                },
                _ => (ch.nodes, ch.ops, Err(Error::TypeMismatch)),
            }
        }
    }
}

impl State {
    /// Reads the nested-list value of node `id`, reducing as needed under
    /// the given step and depth budgets.
    pub fn eval_nested_list(&mut self, id: usize, max_steps: u64, max_depth: u64) -> (r: Result<
        NestedList,
        Error,
    >)
        ensures
            final(self).env == old(self).env,
            final(self).names == old(self).names,
            ({
                let p = spec_eval_nested(
                    old(self).nodes@,
                    old(self).env@,
                    old(self).ops as nat,
                    id,
                    max_steps,
                    max_depth,
                );
                final(self).nodes@ == p.0 && final(self).ops as nat == p.1 && r == p.2
            }),
        decreases max_depth,
    {
        if max_depth == 0 {
            return Err(Error::DepthLimitExceeded);
        }
        let ghost c0 = Cfg {
            nodes: self.nodes@,
            env: self.env@,
            stack: Seq::empty(),
            ctrl: Ctrl::Eval(id),
            ops: self.ops as nat,
        };
        let w = match self.run_machine(id, max_steps) {
            Ok(w) => {
                proof {
                    let n = choose|n: nat|
                        n <= max_steps && (#[trigger] spec_run(c0, n)).ctrl == Ctrl::Done(w)
                            && spec_run(c0, n).nodes == self.nodes@ && spec_run(c0, n).ops
                            == self.ops as nat;
                    lemma_run_outcome(c0, max_steps as nat, n);
                }
                w
            },
            Err(e) => {
                proof {
                    if e != Error::StepLimitExceeded {
                        let n = choose|n: nat|
                            n <= max_steps && (#[trigger] spec_run(c0, n)).ctrl == Ctrl::Fail(e)
                                && spec_run(c0, n).nodes == self.nodes@ && spec_run(c0, n).ops
                                == self.ops as nat;
                        lemma_run_outcome(c0, max_steps as nat, n);
                    } else {
                        lemma_run_no_limit(c0, max_steps as nat);
                        assert forall|n: nat| n <= max_steps as nat implies !(
                        #[trigger] spec_run(c0, n)).is_halted() by {
                            if spec_run(c0, n).is_halted() {
                                lemma_halt_stable(c0, n, max_steps as nat);
                            }
                        }
                    }
                }
                return Err(e);
            },
        };
        match w {
            Value::Number(n) => Ok(NestedList::Number(n)),
            Value::BuiltIn(BuiltIn::Nil) => Ok(NestedList::Nil),
            Value::Partial1(PartialAp::Cons_1, h, t) => {
                let hv = match self.eval_nested_list(h, max_steps, max_depth - 1) {
                    Ok(hv) => hv,
                    Err(e) => {
                        return Err(e);
                    },
                };
                let tv = match self.eval_nested_list(t, max_steps, max_depth - 1) {
                    Ok(tv) => tv,
                    Err(e) => {
                        return Err(e);
                    },
                };
                Ok(NestedList::Cons(Box::new(hv), Box::new(tv)))
            },
            _ => Err(Error::TypeMismatch),
        }
    }
}

impl NestedList {
    /// Builds the graph representation of this value in the state's arena
    /// and returns its root node.
    pub fn into_value(&self, state: &mut State) -> (r: usize)
        ensures
            ({
                let p = spec_reify(old(state).nodes@, *self);
                final(state).nodes@ == p.0 && r == p.1
            }),
            final(state).env == old(state).env,
            final(state).names == old(state).names,
            final(state).ops == old(state).ops,
        decreases self,
    {
        match self {
            NestedList::Nil => state.push_node(Value::BuiltIn(BuiltIn::Nil)),
            NestedList::Number(n) => state.push_node(Value::Number(*n)),
            NestedList::Cons(h, t) => {
                let hid = (**h).into_value(state);
                let tid = (**t).into_value(state);
                let c = state.push_node(Value::BuiltIn(BuiltIn::Cons));
                let a1 = state.push_node(Value::Apply(c, hid));
                state.push_node(Value::Apply(a1, tid))
            },
        }
    }

    /// Reads the nested-list value of node `id` from the state, reducing
    /// as needed under the given step and depth budgets.
    pub fn from_value(state: &mut State, id: usize, max_steps: u64, max_depth: u64) -> (r: Result<
        NestedList,
        Error,
    >)
        ensures
            final(state).env == old(state).env,
            final(state).names == old(state).names,
            ({
                let p = spec_eval_nested(
                    old(state).nodes@,
                    old(state).env@,
                    old(state).ops as nat,
                    id,
                    max_steps,
                    max_depth,
                );
                final(state).nodes@ == p.0 && final(state).ops as nat == p.1 && r == p.2
            }),
    {
        state.eval_nested_list(id, max_steps, max_depth)
    }
}

} // verus!
