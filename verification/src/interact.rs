//! The interaction protocol driver.  One logical round evaluates
//! `protocol(state)(input)` to a flag/state/data triple.  A zero flag
//! finishes the round; a non-zero flag demands a network exchange: the
//! data is serialised by the codec, sent by an outside transport, and the
//! decoded response feeds the next round with the new state.
//!
//! The network itself is not this library's concern: a round that needs
//! an exchange is returned as [`RoundOutcome::SendNeeded`] holding the encoded
//! payload, and the caller hands the decoded response back through
//! [`interact_resume`].

use vstd::prelude::*;
use crate::errors::Error;
use crate::nested::NestedList;
use crate::modem::{mod_list, spec_mod, spec_dem};
use crate::bridge::{spec_reify, spec_eval_nested};
use crate::eval::{State, Value, gstate, spec_find_name};
use crate::picture::{Picture, PictureBuilder, spec_pictures_shape, picture_matches};
use crate::syntax::{Var, VarKey, var_key};
use vstd::string::StringExecFns;

verus! {

/// What one protocol round decided.
#[derive(Debug)]
pub enum RoundOutcome {
    /// The flag was zero: the round is complete with this new state and
    /// output data.
    Finished { state: NestedList, data: NestedList },
    /// The flag was non-zero: the output data, encoded as a bit payload,
    /// must be exchanged with the remote endpoint, and the next round
    /// continues from this new state with the decoded response as input.
    SendNeeded { state: NestedList, payload: Vec<bool> },
}

/// Destructures a protocol result as the exact triple
/// `(flag, (new_state, (data, nil)))`.
pub open spec fn protocol_triple(v: NestedList) -> Option<(i64, NestedList, NestedList)> {
    match v {
        NestedList::Cons(flag, rest1) => match (*flag, *rest1) {
            (NestedList::Number(f), NestedList::Cons(st, rest2)) => match *rest2 {
                NestedList::Cons(data, rest3) => match *rest3 {
                    NestedList::Nil => Some((f, *st, *data)),
                    _ => None,
                },
                _ => None,
            },
            _ => None,
        },
        _ => None,
    }
}

/// The nodes a round build appends before reduction: the protocol
/// variable reference, the reified state and input, and the two
/// applications `(protocol state) input`.
pub open spec fn spec_round_graph(nodes: Seq<Value>, vi: u32, st: NestedList, input: NestedList)
    -> (Seq<Value>, usize) {
    let n1 = nodes.push(Value::Var(vi));
    let vnode = nodes.len() as usize;
    let ps = spec_reify(n1, st);
    let pc = spec_reify(ps.0, input);
    let n2 = pc.0.push(Value::Apply(vnode, ps.1));
    let a1 = pc.0.len() as usize;
    (n2.push(Value::Apply(a1, pc.1)), (pc.0.len() + 1) as usize)
}

/// What one round reports, given the evaluated triple.
pub open spec fn spec_round_outcome(q: Result<NestedList, Error>, r: Result<RoundOutcome, Error>)
    -> bool {
    match q {
        Err(e) => r == Err::<RoundOutcome, Error>(e),
        Ok(v) => match protocol_triple(v) {
            None => r == Err::<RoundOutcome, Error>(Error::ProtocolShapeError),
            Some((f, st2, data)) => if f == 0 {
                r == Ok::<RoundOutcome, Error>(RoundOutcome::Finished { state: st2, data })
            } else {
                match r {
                    Ok(RoundOutcome::SendNeeded { state, payload }) => state == st2 && payload@
                        == spec_mod(data),
                    _ => false,
                }
            },
        },
    }
}

/// Runs one protocol round: builds `protocol(state)(input)`, reduces it
/// under the given budgets, destructures the flag/state/data triple, and
/// either finishes the round or hands back the encoded payload that must
/// be exchanged.  No network traffic happens here, and none at all when
/// the flag is zero.
pub fn interact_step(
    state: &mut State,
    protocol: &Var,
    st: NestedList,
    input: NestedList,
    max_steps: u64,
    max_depth: u64,
) -> (r: Result<RoundOutcome, Error>)
    ensures
        final(state).env == old(state).env,
        final(state).names == old(state).names,
        ({
            match spec_find_name(gstate(*old(state)).names, var_key(*protocol)) {
                None => r == Err::<RoundOutcome, Error>(Error::UnboundVariable)
                    && final(state).nodes == old(state).nodes
                    && final(state).ops == old(state).ops,
                Some(vi) => if vi > u32::MAX {
                    r == Err::<RoundOutcome, Error>(Error::UnboundVariable) && final(state).nodes
                        == old(state).nodes && final(state).ops == old(state).ops
                } else {
                    let g = spec_round_graph(old(state).nodes@, vi as u32, st, input);
                    let q = spec_eval_nested(
                        g.0,
                        old(state).env@,
                        old(state).ops as nat,
                        g.1,
                        max_steps,
                        max_depth,
                    );
                    final(state).nodes@ == q.0 && final(state).ops as nat == q.1
                        && spec_round_outcome(q.2, r)
                },
            }
        }),
{
    let vi = match state.find_name(protocol) {
        None => {
            return Err(Error::UnboundVariable);
        },
        Some(vi) => vi,
    };
    if vi > (u32::MAX as usize) {
        return Err(Error::UnboundVariable);
    }
    let vnode = state.push_node(Value::Var(vi as u32));
    let s_id = st.into_value(state);
    let c_id = input.into_value(state);
    let a1 = state.push_node(Value::Apply(vnode, s_id));
    let root = state.push_node(Value::Apply(a1, c_id));
    let v = match state.eval_nested_list(root, max_steps, max_depth) {
        Err(e) => {
            return Err(e);
        },
        Ok(v) => v,
    };
    match v {
        NestedList::Cons(flag, rest1) => match (*flag, *rest1) {
            (NestedList::Number(f), NestedList::Cons(st2, rest2)) => match *rest2 {
                NestedList::Cons(data, rest3) => match *rest3 {
                    NestedList::Nil => {
                        if f == 0 {
                            Ok(RoundOutcome::Finished { state: *st2, data: *data })
                        } else {
                            let payload = mod_list(&data);
                            Ok(RoundOutcome::SendNeeded { state: *st2, payload })
                        }
                    },
                    _ => Err(Error::ProtocolShapeError),
                },
                _ => Err(Error::ProtocolShapeError),
            },
            _ => Err(Error::ProtocolShapeError),
        },
        _ => Err(Error::ProtocolShapeError),
    }
}

/// What a whole interaction call reports.
#[derive(Debug)]
pub enum InteractionResult {
    /// The round finished locally: the new state to persist and the
    /// pictures built from the output data.
    Completed { state: NestedList, pictures: Vec<Picture> },
    /// A network exchange is required before the interaction can finish:
    /// the new state and the encoded payload to send.  Decode the
    /// response and continue through [`interact_resume`].
    Pending { state: NestedList, payload: Vec<bool> },
}

/// Runs one interaction round for the named protocol on the persisted
/// state and the click coordinates `(x, y)`.  A zero flag completes the
/// round and builds the output pictures; a non-zero flag hands back the
/// payload that must be exchanged with the remote endpoint first.  No
/// network traffic happens in either case.
pub fn run_interaction(
    state: &mut State,
    protocol: &str,
    st: NestedList,
    x: i64,
    y: i64,
    max_steps: u64,
    max_depth: u64,
) -> (r: Result<InteractionResult, Error>)
    ensures
        final(state).env == old(state).env,
        final(state).names == old(state).names,
        ({
            let key = VarKey::Named(protocol@);
            let input = NestedList::Cons(
                Box::new(NestedList::Number(x)),
                Box::new(NestedList::Number(y)),
            );
            match spec_find_name(gstate(*old(state)).names, key) {
                None => r == Err::<InteractionResult, Error>(Error::UnboundVariable)
                    && final(state).nodes == old(state).nodes
                    && final(state).ops == old(state).ops,
                Some(vi) => if vi > u32::MAX {
                    r == Err::<InteractionResult, Error>(Error::UnboundVariable)
                        && final(state).nodes == old(state).nodes
                        && final(state).ops == old(state).ops
                } else {
                    let g = spec_round_graph(old(state).nodes@, vi as u32, st, input);
                    let q = spec_eval_nested(
                        g.0,
                        old(state).env@,
                        old(state).ops as nat,
                        g.1,
                        max_steps,
                        max_depth,
                    );
                    final(state).nodes@ == q.0 && final(state).ops as nat == q.1 && (match q.2 {
                        Err(e) => r == Err::<InteractionResult, Error>(e),
                        Ok(v) => match protocol_triple(v) {
                            None => r == Err::<InteractionResult, Error>(
                                Error::ProtocolShapeError,
                            ),
                            Some((f, st2, data)) => if f == 0 {
                                match spec_pictures_shape(data) {
                                    None => r == Err::<InteractionResult, Error>(
                                        Error::TypeMismatch,
                                    ),
                                    Some(ls) => match r {
                                        Ok(
                                            InteractionResult::Completed { state: s2, pictures },
                                        ) => s2 == st2 && pictures@.len() == ls.len() && (forall|
                                            i: int,
                                        |
                                            0 <= i < ls.len() ==> picture_matches(
                                                #[trigger] pictures@[i],
                                                ls[i],
                                            )),
                                        _ => false,
                                    },
                                }
                            } else {
                                match r {
                                    Ok(InteractionResult::Pending { state: s2, payload }) => s2
                                        == st2 && payload@ == spec_mod(data),
                                    _ => false,
                                }
                            },
                        },
                    })
                },
            }
        }),
{
    let var = Var::Named(String::from_str(protocol));
    let input = NestedList::Cons(
        Box::new(NestedList::Number(x)),
        Box::new(NestedList::Number(y)),
    );
    match interact_step(state, &var, st, input, max_steps, max_depth) {
        Err(e) => Err(e),
        Ok(RoundOutcome::SendNeeded { state: st2, payload }) => Ok(
            InteractionResult::Pending { state: st2, payload },
        ),
        Ok(RoundOutcome::Finished { state: st2, data }) => {
            match PictureBuilder::from_nested_list(data) {
                Err(e) => Err(e),
                Ok(pictures) => Ok(InteractionResult::Completed { state: st2, pictures }),
            }
        },
    }
}

/// Continues an interaction after a network exchange: decodes the
/// response bits and runs the next round with them as input.
pub fn interact_resume(
    state: &mut State,
    protocol: &Var,
    st: NestedList,
    response: &[bool],
    max_steps: u64,
    max_depth: u64,
) -> (r: Result<RoundOutcome, Error>)
    ensures
        final(state).env == old(state).env,
        final(state).names == old(state).names,
        spec_dem(response@) is None ==> r == Err::<RoundOutcome, Error>(Error::MalformedEncoding)
            && final(state).nodes == old(state).nodes && final(state).ops == old(state).ops,
        ({
            match spec_dem(response@) {
                None => true,
                Some(p) => {
                    let input = p.0;
                    match spec_find_name(gstate(*old(state)).names, var_key(*protocol)) {
                        None => r == Err::<RoundOutcome, Error>(Error::UnboundVariable)
                            && final(state).nodes == old(state).nodes
                            && final(state).ops == old(state).ops,
                        Some(vi) => if vi > u32::MAX {
                            r == Err::<RoundOutcome, Error>(Error::UnboundVariable)
                                && final(state).nodes == old(state).nodes
                                && final(state).ops == old(state).ops
                        } else {
                            let g = spec_round_graph(old(state).nodes@, vi as u32, st, input);
                            let q = spec_eval_nested(
                                g.0,
                                old(state).env@,
                                old(state).ops as nat,
                                g.1,
                                max_steps,
                                max_depth,
                            );
                            final(state).nodes@ == q.0 && final(state).ops as nat == q.1
                                && spec_round_outcome(q.2, r)
                        },
                    }
                },
            }
        }),
{
    let input = match crate::modem::demodulate(response, 0) {
        Ok((v, _)) => v,
        Err(e) => {
            proof {
                assert(response@.skip(0) =~= response@);
            }
            return Err(Error::MalformedEncoding);
        },
    };
    proof {
        assert(response@.skip(0) =~= response@);
    }
    interact_step(state, protocol, st, input, max_steps, max_depth)
}

} // verus!
