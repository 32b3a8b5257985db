//! Laws of the reduction machine: the combinator identities and the
//! memoization guarantee, proved against the step semantics
//! [`crate::eval::spec_step`].

use vstd::prelude::*;
use crate::eval::{
    Value, BuiltIn, PartialAp, Frame, Ctrl, Cfg, spec_step, spec_run, lemma_halt_stable,
    lemma_run_add,
};

verus! {

/// `c` with one extra frame below its whole stack.
pub open spec fn lift(c: Cfg, f: Frame) -> Cfg {
    Cfg { stack: seq![f] + c.stack, ..c }
}

/// Peeling one step off the front of a run.
pub proof fn lemma_run_shift(c: Cfg, n: nat)
    requires
        n >= 1,
    ensures
        spec_run(c, n) == spec_run(spec_step(c), (n - 1) as nat),
    decreases n,
{
    if n == 1 {
        assert(spec_run(c, 1) == spec_step(spec_run(c, 0)));
        assert(spec_run(spec_step(c), 0) == spec_step(c));
    } else {
        lemma_run_shift(c, (n - 1) as nat);
        assert(spec_run(c, n) == spec_step(spec_run(c, (n - 1) as nat)));
        assert(spec_run(spec_step(c), (n - 1) as nat) == spec_step(
            spec_run(spec_step(c), (n - 2) as nat),
        ));
    }
}

/// A step that does not consume the bottom of the stack commutes with
/// adding a frame at the bottom.
#[verifier::rlimit(100)]
proof fn lemma_step_lift(c: Cfg, f: Frame)
    requires
        !c.is_halted(),
        !(c.ctrl is Ret && c.stack.len() == 0),
    ensures
        spec_step(lift(c, f)) == lift(spec_step(c), f),
{
    let s = c.stack;
    assert((seq![f] + s).len() == 1 + s.len());
    if s.len() > 0 {
        assert((seq![f] + s).last() == s.last());
        assert((seq![f] + s).drop_last() =~= seq![f] + s.drop_last());
    }
    assert forall|g: Frame| (seq![f] + s).push(g) =~= seq![f] + s.push(g) by {}
    assert forall|g: Frame, h: Frame|
        (seq![f] + s.drop_last()).push(g).push(h) =~= seq![f] + s.drop_last().push(g).push(
            h,
        ) by {}
    assert(spec_step(lift(c, f)) =~~= lift(spec_step(c), f));
}

/// A run that finishes with a value still finishes with that value when
/// a memoization frame sits below its stack: the frame only writes the
/// value back into its node on the way out.
#[verifier::rlimit(100)]
pub proof fn lemma_write_frame(c: Cfg, id: usize, n: nat)
    requires
        spec_run(c, n).ctrl is Done,
    ensures
        exists|m: nat|
            (#[trigger] spec_run(lift(c, Frame::Write(id)), m)).ctrl == spec_run(c, n).ctrl,
    decreases n,
{
    let cl = lift(c, Frame::Write(id));
    if c.is_halted() {
        lemma_halt_stable(c, 0, n);
        assert(spec_run(cl, 0).ctrl == spec_run(c, n).ctrl);
    } else {
        assert(n > 0);
        if c.ctrl is Ret && c.stack.len() == 0 {
            let w = c.ctrl->Ret_0;
            assert(spec_run(c, 0) == c);
            assert(spec_run(c, 1) == spec_step(spec_run(c, 0)));
            assert(spec_step(c).is_halted());
            lemma_halt_stable(c, 1, n);
            if c.nodes.len() + 64 > usize::MAX {
                assert(spec_step(c).ctrl is Fail);
                assert(false);
            }
            assert(spec_step(c).ctrl == Ctrl::Done(w));
            assert(spec_run(c, n).ctrl == Ctrl::Done(w));
            assert(seq![Frame::Write(id)] + c.stack =~= seq![Frame::Write(id)]);
            let c1 = spec_step(cl);
            assert(c1.ctrl == Ctrl::Ret(w) && c1.stack =~= Seq::<Frame>::empty());
            let c2 = spec_step(c1);
            assert(c2.ctrl == Ctrl::Done(w));
            assert(spec_run(cl, 0) == cl);
            assert(spec_run(cl, 1) == spec_step(spec_run(cl, 0)));
            assert(spec_run(cl, 2) == spec_step(spec_run(cl, 1)));
            assert(spec_run(cl, 2).ctrl == Ctrl::Done(w));
        } else {
            lemma_step_lift(c, Frame::Write(id));
            lemma_run_shift(c, n);
            lemma_write_frame(spec_step(c), id, (n - 1) as nat);
            let m0 = choose|m0: nat|
                (#[trigger] spec_run(lift(spec_step(c), Frame::Write(id)), m0)).ctrl == spec_run(
                    spec_step(c),
                    (n - 1) as nat,
                ).ctrl;
            lemma_run_shift(cl, m0 + 1);
            assert(spec_run(cl, m0 + 1).ctrl == spec_run(c, n).ctrl);
        }
    }
}

/// Reduction is memoized: a node whose content is already resolved (a
/// number, a builtin, or a partial application) is served as it stands.
/// Reducing it halts in two steps with exactly that content, performs no
/// primitive computation, and leaves the graph untouched — however many
/// parents reach the node, the work below it is never repeated.
pub proof fn lemma_memoized_node_is_free(
    nodes: Seq<Value>,
    env: Seq<Option<usize>>,
    ops: nat,
    id: usize,
    w: Value,
)
    requires
        id < nodes.len(),
        nodes[id as int] == w,
        !(w is Apply),
        !(w is Var),
        nodes.len() + 64 <= usize::MAX,
    ensures
        ({
            let c0 = Cfg { nodes, env, stack: Seq::empty(), ctrl: Ctrl::Eval(id), ops };
            spec_run(c0, 2).ctrl == Ctrl::Done(w) && spec_run(c0, 2).nodes == nodes && spec_run(
                c0,
                2,
            ).ops == ops
        }),
{
    let c0 = Cfg { nodes, env, stack: Seq::empty(), ctrl: Ctrl::Eval(id), ops };
    assert(spec_run(c0, 0) == c0);
    assert(spec_run(c0, 1) == spec_step(spec_run(c0, 0)));
    assert(spec_run(c0, 2) == spec_step(spec_run(c0, 1)));
}

/// The identity combinator: if reducing node `x` yields the value `v`,
/// reducing an application `i x` yields the same `v`.
#[verifier::rlimit(100)]
#[verifier::spinoff_prover]
pub proof fn lemma_identity_law(
    nodes: Seq<Value>,
    env: Seq<Option<usize>>,
    ops: nat,
    a: usize,
    f: usize,
    x: usize,
    v: Value,
    n: nat,
)
    requires
        a < nodes.len(),
        nodes[a as int] == Value::Apply(f, x),
        f < nodes.len(),
        nodes[f as int] == Value::BuiltIn(BuiltIn::I),
        nodes.len() + 64 <= usize::MAX,
        spec_run(
            Cfg { nodes, env, stack: Seq::empty(), ctrl: Ctrl::Eval(x), ops },
            n,
        ).ctrl == Ctrl::Done(v),
    ensures
        exists|m: nat|
            (#[trigger] spec_run(
                Cfg { nodes, env, stack: Seq::empty(), ctrl: Ctrl::Eval(a), ops },
                m,
            )).ctrl == Ctrl::Done(v),
{
    let c0 = Cfg { nodes, env, stack: Seq::empty(), ctrl: Ctrl::Eval(a), ops };
    let cx = Cfg { nodes, env, stack: Seq::empty(), ctrl: Ctrl::Eval(x), ops };
    let c1 = spec_step(c0);
    assert(c1 =~~= Cfg {
        nodes,
        env,
        stack: seq![Frame::Write(a), Frame::Apply1(x)],
        ctrl: Ctrl::Eval(f),
        ops,
    });
    let c2 = spec_step(c1);
    assert(c2 =~~= Cfg {
        nodes,
        env,
        stack: seq![Frame::Write(a), Frame::Apply1(x)],
        ctrl: Ctrl::Ret(Value::BuiltIn(BuiltIn::I)),
        ops,
    });
    let c3 = spec_step(c2);
    assert(seq![Frame::Write(a), Frame::Apply1(x)].drop_last() =~= seq![Frame::Write(a)]);
    assert(c3 =~~= Cfg { nodes, env, stack: seq![Frame::Write(a)], ctrl: Ctrl::Eval(x), ops });
    assert(spec_run(c0, 0) == c0);
    assert(spec_run(c0, 1) == spec_step(spec_run(c0, 0)));
    assert(spec_run(c0, 2) == spec_step(spec_run(c0, 1)));
    assert(spec_run(c0, 3) == spec_step(spec_run(c0, 2)));
    assert(spec_run(c0, 3) == c3);
    assert(c3 =~~= lift(cx, Frame::Write(a)));
    lemma_write_frame(cx, a, n);
    let m0 = choose|m0: nat|
        (#[trigger] spec_run(lift(cx, Frame::Write(a)), m0)).ctrl == spec_run(cx, n).ctrl;
    lemma_run_add(c0, 3, m0);
    assert(spec_run(c0, 3 + m0).ctrl == Ctrl::Done(v));
}

/// The true selector: if reducing node `a` in the arena left behind by
/// forcing the selector (the inner application memoized as a partial
/// `true a`) yields `v`, then reducing `(true a) b` yields the same `v`,
/// without the unselected branch `b` being forced.
#[verifier::rlimit(100)]
#[verifier::spinoff_prover]
pub proof fn lemma_true_law(
    nodes: Seq<Value>,
    env: Seq<Option<usize>>,
    ops: nat,
    ab: usize,
    fb: usize,
    ft: usize,
    a: usize,
    b: usize,
    v: Value,
    n: nat,
)
    requires
        ab < nodes.len(),
        nodes[ab as int] == Value::Apply(fb, b),
        fb < nodes.len(),
        nodes[fb as int] == Value::Apply(ft, a),
        ft < nodes.len(),
        nodes[ft as int] == Value::BuiltIn(BuiltIn::True),
        nodes.len() + 64 <= usize::MAX,
        spec_run(
            Cfg {
                nodes: nodes.update(fb as int, Value::Partial0(PartialAp::True_0, a)),
                env,
                stack: Seq::empty(),
                ctrl: Ctrl::Eval(a),
                ops,
            },
            n,
        ).ctrl == Ctrl::Done(v),
    ensures
        exists|m: nat|
            (#[trigger] spec_run(
                Cfg { nodes, env, stack: Seq::empty(), ctrl: Ctrl::Eval(ab), ops },
                m,
            )).ctrl == Ctrl::Done(v),
{
    let c0 = Cfg { nodes, env, stack: Seq::empty(), ctrl: Ctrl::Eval(ab), ops };
    let nodes2 = nodes.update(fb as int, Value::Partial0(PartialAp::True_0, a));
    let ca = Cfg { nodes: nodes2, env, stack: Seq::empty(), ctrl: Ctrl::Eval(a), ops };
    let s1 = seq![Frame::Write(ab), Frame::Apply1(b)];
    let s2 = seq![Frame::Write(ab), Frame::Apply1(b), Frame::Write(fb), Frame::Apply1(a)];
    let s3 = seq![Frame::Write(ab), Frame::Apply1(b), Frame::Write(fb)];
    let c1 = spec_step(c0);
    assert(c1 =~~= Cfg { nodes, env, stack: s1, ctrl: Ctrl::Eval(fb), ops });
    let c2 = spec_step(c1);
    assert(s1.push(Frame::Write(fb)).push(Frame::Apply1(a)) =~= s2);
    assert(c2 =~~= Cfg { nodes, env, stack: s2, ctrl: Ctrl::Eval(ft), ops });
    let c3 = spec_step(c2);
    assert(c3 =~~= Cfg {
        nodes,
        env,
        stack: s2,
        ctrl: Ctrl::Ret(Value::BuiltIn(BuiltIn::True)),
        ops,
    });
    let c4 = spec_step(c3);
    assert(s2.drop_last() =~= s3);
    assert(c4 =~~= Cfg {
        nodes,
        env,
        stack: s3,
        ctrl: Ctrl::Ret(Value::Partial0(PartialAp::True_0, a)),
        ops,
    });
    let c5 = spec_step(c4);
    assert(s3.drop_last() =~= s1);
    assert(c5 =~~= Cfg {
        nodes: nodes2,
        env,
        stack: s1,
        ctrl: Ctrl::Ret(Value::Partial0(PartialAp::True_0, a)),
        ops,
    });
    let c6 = spec_step(c5);
    assert(s1.drop_last() =~= seq![Frame::Write(ab)]);
    assert(c6 =~~= Cfg { nodes: nodes2, env, stack: seq![Frame::Write(ab)], ctrl: Ctrl::Eval(a), ops });
    assert(spec_run(c0, 0) == c0);
    assert(spec_run(c0, 1) == spec_step(spec_run(c0, 0)));
    assert(spec_run(c0, 2) == spec_step(spec_run(c0, 1)));
    assert(spec_run(c0, 3) == spec_step(spec_run(c0, 2)));
    assert(spec_run(c0, 4) == spec_step(spec_run(c0, 3)));
    assert(spec_run(c0, 5) == spec_step(spec_run(c0, 4)));
    assert(spec_run(c0, 6) == spec_step(spec_run(c0, 5)));
    assert(spec_run(c0, 6) == c6);
    assert(c6 =~~= lift(ca, Frame::Write(ab)));
    lemma_write_frame(ca, ab, n);
    let m0 = choose|m0: nat|
        (#[trigger] spec_run(lift(ca, Frame::Write(ab)), m0)).ctrl == spec_run(ca, n).ctrl;
    lemma_run_add(c0, 6, m0);
    assert(spec_run(c0, 6 + m0).ctrl == Ctrl::Done(v));
}

/// The false selector: if reducing node `b` in the arena left behind by
/// forcing the selector yields `v`, then reducing `(false a) b` yields
/// the same `v`, without the unselected branch `a` being forced.
#[verifier::rlimit(100)]
#[verifier::spinoff_prover]
pub proof fn lemma_false_law(
    nodes: Seq<Value>,
    env: Seq<Option<usize>>,
    ops: nat,
    ab: usize,
    fb: usize,
    ft: usize,
    a: usize,
    b: usize,
    v: Value,
    n: nat,
)
    requires
        ab < nodes.len(),
        nodes[ab as int] == Value::Apply(fb, b),
        fb < nodes.len(),
        nodes[fb as int] == Value::Apply(ft, a),
        ft < nodes.len(),
        nodes[ft as int] == Value::BuiltIn(BuiltIn::False),
        nodes.len() + 64 <= usize::MAX,
        spec_run(
            Cfg {
                nodes: nodes.update(fb as int, Value::Partial0(PartialAp::False_0, a)),
                env,
                stack: Seq::empty(),
                ctrl: Ctrl::Eval(b),
                ops,
            },
            n,
        ).ctrl == Ctrl::Done(v),
    ensures
        exists|m: nat|
            (#[trigger] spec_run(
                Cfg { nodes, env, stack: Seq::empty(), ctrl: Ctrl::Eval(ab), ops },
                m,
            )).ctrl == Ctrl::Done(v),
{
    let c0 = Cfg { nodes, env, stack: Seq::empty(), ctrl: Ctrl::Eval(ab), ops };
    let nodes2 = nodes.update(fb as int, Value::Partial0(PartialAp::False_0, a));
    let cb = Cfg { nodes: nodes2, env, stack: Seq::empty(), ctrl: Ctrl::Eval(b), ops };
    let s1 = seq![Frame::Write(ab), Frame::Apply1(b)];
    let s2 = seq![Frame::Write(ab), Frame::Apply1(b), Frame::Write(fb), Frame::Apply1(a)];
    let s3 = seq![Frame::Write(ab), Frame::Apply1(b), Frame::Write(fb)];
    let c1 = spec_step(c0);
    assert(c1 =~~= Cfg { nodes, env, stack: s1, ctrl: Ctrl::Eval(fb), ops });
    let c2 = spec_step(c1);
    assert(s1.push(Frame::Write(fb)).push(Frame::Apply1(a)) =~= s2);
    assert(c2 =~~= Cfg { nodes, env, stack: s2, ctrl: Ctrl::Eval(ft), ops });
    let c3 = spec_step(c2);
    assert(c3 =~~= Cfg {
        nodes,
        env,
        stack: s2,
        ctrl: Ctrl::Ret(Value::BuiltIn(BuiltIn::False)),
        ops,
    });
    let c4 = spec_step(c3);
    assert(s2.drop_last() =~= s3);
    assert(c4 =~~= Cfg {
        nodes,
        env,
        stack: s3,
        ctrl: Ctrl::Ret(Value::Partial0(PartialAp::False_0, a)),
        ops,
    });
    let c5 = spec_step(c4);
    assert(s3.drop_last() =~= s1);
    assert(c5 =~~= Cfg {
        nodes: nodes2,
        env,
        stack: s1,
        ctrl: Ctrl::Ret(Value::Partial0(PartialAp::False_0, a)),
        ops,
    });
    let c6 = spec_step(c5);
    assert(s1.drop_last() =~= seq![Frame::Write(ab)]);
    assert(c6 =~~= Cfg { nodes: nodes2, env, stack: seq![Frame::Write(ab)], ctrl: Ctrl::Eval(b), ops });
    assert(spec_run(c0, 0) == c0);
    assert(spec_run(c0, 1) == spec_step(spec_run(c0, 0)));
    assert(spec_run(c0, 2) == spec_step(spec_run(c0, 1)));
    assert(spec_run(c0, 3) == spec_step(spec_run(c0, 2)));
    assert(spec_run(c0, 4) == spec_step(spec_run(c0, 3)));
    assert(spec_run(c0, 5) == spec_step(spec_run(c0, 4)));
    assert(spec_run(c0, 6) == spec_step(spec_run(c0, 5)));
    assert(spec_run(c0, 6) == c6);
    assert(c6 =~~= lift(cb, Frame::Write(ab)));
    lemma_write_frame(cb, ab, n);
    let m0 = choose|m0: nat|
        (#[trigger] spec_run(lift(cb, Frame::Write(ab)), m0)).ctrl == spec_run(cb, n).ctrl;
    lemma_run_add(c0, 6, m0);
    assert(spec_run(c0, 6 + m0).ctrl == Ctrl::Done(v));
}

/// Selecting from a pair with the true selector: a pair value `cons h t`
/// applied to `true` rewrites to `(true h) t` and evaluates to whatever
/// the head `h` evaluates to (in the arena left behind by the rewrite).
#[verifier::rlimit(100)]
#[verifier::spinoff_prover]
pub proof fn lemma_cons_select_true_law(
    nodes: Seq<Value>,
    env: Seq<Option<usize>>,
    ops: nat,
    ap: usize,
    pr: usize,
    sl: usize,
    h: usize,
    t: usize,
    v: Value,
    n: nat,
)
    requires
        ap < nodes.len(),
        nodes[ap as int] == Value::Apply(pr, sl),
        pr < nodes.len(),
        nodes[pr as int] == Value::Partial1(PartialAp::Cons_1, h, t),
        sl < nodes.len(),
        nodes[sl as int] == Value::BuiltIn(BuiltIn::True),
        nodes.len() + 66 <= usize::MAX,
        ({
            let base = nodes.len();
            let nodes3 = nodes.push(Value::Apply(sl, h)).push(
                Value::Apply(base as usize, t),
            ).update(base as int, Value::Partial0(PartialAp::True_0, h));
            spec_run(
                Cfg { nodes: nodes3, env, stack: Seq::empty(), ctrl: Ctrl::Eval(h), ops },
                n,
            ).ctrl == Ctrl::Done(v)
        }),
    ensures
        exists|m: nat|
            (#[trigger] spec_run(
                Cfg { nodes, env, stack: Seq::empty(), ctrl: Ctrl::Eval(ap), ops },
                m,
            )).ctrl == Ctrl::Done(v),
{
    let c0 = Cfg { nodes, env, stack: Seq::empty(), ctrl: Ctrl::Eval(ap), ops };
    let base = nodes.len();
    let lsel = base as usize;
    let lapp = (base + 1) as usize;
    let nodes2 = nodes.push(Value::Apply(sl, h)).push(Value::Apply(lsel, t));
    let nodes3 = nodes2.update(base as int, Value::Partial0(PartialAp::True_0, h));
    let ch = Cfg { nodes: nodes3, env, stack: Seq::empty(), ctrl: Ctrl::Eval(h), ops };
    let s1 = seq![Frame::Write(ap), Frame::Apply1(sl)];
    let s2 = seq![Frame::Write(ap)];
    let s3 = seq![Frame::Write(ap), Frame::Write(lapp), Frame::Apply1(t)];
    let s4 = seq![Frame::Write(ap), Frame::Write(lapp), Frame::Apply1(t), Frame::Write(lsel)];
    let s5 = seq![
        Frame::Write(ap),
        Frame::Write(lapp),
        Frame::Apply1(t),
        Frame::Write(lsel),
        Frame::Apply1(h),
    ];
    let s6 = seq![Frame::Write(ap), Frame::Write(lapp)];
    let c1 = spec_step(c0);
    assert(c1 =~~= Cfg { nodes, env, stack: s1, ctrl: Ctrl::Eval(pr), ops });
    let c2 = spec_step(c1);
    assert(c2 =~~= Cfg {
        nodes,
        env,
        stack: s1,
        ctrl: Ctrl::Ret(Value::Partial1(PartialAp::Cons_1, h, t)),
        ops,
    });
    let c3 = spec_step(c2);
    assert(s1.drop_last() =~= s2);
    assert(c3 =~~= Cfg { nodes: nodes2, env, stack: s2, ctrl: Ctrl::Eval(lapp), ops });
    let c4 = spec_step(c3);
    assert(s2.push(Frame::Write(lapp)).push(Frame::Apply1(t)) =~= s3);
    assert(c4 =~~= Cfg { nodes: nodes2, env, stack: s3, ctrl: Ctrl::Eval(lsel), ops });
    let c5 = spec_step(c4);
    assert(s3.push(Frame::Write(lsel)).push(Frame::Apply1(h)) =~= s5);
    assert(c5 =~~= Cfg { nodes: nodes2, env, stack: s5, ctrl: Ctrl::Eval(sl), ops });
    let c6 = spec_step(c5);
    assert(c6 =~~= Cfg {
        nodes: nodes2,
        env,
        stack: s5,
        ctrl: Ctrl::Ret(Value::BuiltIn(BuiltIn::True)),
        ops,
    });
    let c7 = spec_step(c6);
    assert(s5.drop_last() =~= s4);
    assert(c7 =~~= Cfg {
        nodes: nodes2,
        env,
        stack: s4,
        ctrl: Ctrl::Ret(Value::Partial0(PartialAp::True_0, h)),
        ops,
    });
    let c8 = spec_step(c7);
    assert(s4.drop_last() =~= s3);
    assert(c8 =~~= Cfg {
        nodes: nodes3,
        env,
        stack: s3,
        ctrl: Ctrl::Ret(Value::Partial0(PartialAp::True_0, h)),
        ops,
    });
    let c9 = spec_step(c8);
    assert(s3.drop_last() =~= s6);
    assert(c9 =~~= Cfg { nodes: nodes3, env, stack: s6, ctrl: Ctrl::Eval(h), ops });
    assert(spec_run(c0, 0) == c0);
    assert(spec_run(c0, 1) == spec_step(spec_run(c0, 0)));
    assert(spec_run(c0, 2) == spec_step(spec_run(c0, 1)));
    assert(spec_run(c0, 3) == spec_step(spec_run(c0, 2)));
    assert(spec_run(c0, 4) == spec_step(spec_run(c0, 3)));
    assert(spec_run(c0, 5) == spec_step(spec_run(c0, 4)));
    assert(spec_run(c0, 6) == spec_step(spec_run(c0, 5)));
    assert(spec_run(c0, 7) == spec_step(spec_run(c0, 6)));
    assert(spec_run(c0, 8) == spec_step(spec_run(c0, 7)));
    assert(spec_run(c0, 9) == spec_step(spec_run(c0, 8)));
    assert(spec_run(c0, 9) == c9);
    lemma_write_frame(ch, lapp, n);
    let m1 = choose|m1: nat|
        (#[trigger] spec_run(lift(ch, Frame::Write(lapp)), m1)).ctrl == spec_run(ch, n).ctrl;
    let cl1 = lift(ch, Frame::Write(lapp));
    lemma_write_frame(cl1, ap, m1);
    let m2 = choose|m2: nat|
        (#[trigger] spec_run(lift(cl1, Frame::Write(ap)), m2)).ctrl == spec_run(cl1, m1).ctrl;
    assert(lift(cl1, Frame::Write(ap)) =~~= c9);
    lemma_run_add(c0, 9, m2);
    assert(spec_run(c0, 9 + m2).ctrl == Ctrl::Done(v));
}

/// Selecting from a pair with the false selector: a pair value `cons h t`
/// applied to `false` rewrites to `(false h) t` and evaluates to whatever
/// the tail `t` evaluates to (in the arena left behind by the rewrite).
#[verifier::rlimit(100)]
#[verifier::spinoff_prover]
pub proof fn lemma_cons_select_false_law(
    nodes: Seq<Value>,
    env: Seq<Option<usize>>,
    ops: nat,
    ap: usize,
    pr: usize,
    sl: usize,
    h: usize,
    t: usize,
    v: Value,
    n: nat,
)
    requires
        ap < nodes.len(),
        nodes[ap as int] == Value::Apply(pr, sl),
        pr < nodes.len(),
        nodes[pr as int] == Value::Partial1(PartialAp::Cons_1, h, t),
        sl < nodes.len(),
        nodes[sl as int] == Value::BuiltIn(BuiltIn::False),
        nodes.len() + 66 <= usize::MAX,
        ({
            let base = nodes.len();
            let nodes3 = nodes.push(Value::Apply(sl, h)).push(
                Value::Apply(base as usize, t),
            ).update(base as int, Value::Partial0(PartialAp::False_0, h));
            spec_run(
                Cfg { nodes: nodes3, env, stack: Seq::empty(), ctrl: Ctrl::Eval(t), ops },
                n,
            ).ctrl == Ctrl::Done(v)
        }),
    ensures
        exists|m: nat|
            (#[trigger] spec_run(
                Cfg { nodes, env, stack: Seq::empty(), ctrl: Ctrl::Eval(ap), ops },
                m,
            )).ctrl == Ctrl::Done(v),
{
    let c0 = Cfg { nodes, env, stack: Seq::empty(), ctrl: Ctrl::Eval(ap), ops };
    let base = nodes.len();
    let lsel = base as usize;
    let lapp = (base + 1) as usize;
    let nodes2 = nodes.push(Value::Apply(sl, h)).push(Value::Apply(lsel, t));
    let nodes3 = nodes2.update(base as int, Value::Partial0(PartialAp::False_0, h));
    let ch = Cfg { nodes: nodes3, env, stack: Seq::empty(), ctrl: Ctrl::Eval(t), ops };
    let s1 = seq![Frame::Write(ap), Frame::Apply1(sl)];
    let s2 = seq![Frame::Write(ap)];
    let s3 = seq![Frame::Write(ap), Frame::Write(lapp), Frame::Apply1(t)];
    let s4 = seq![Frame::Write(ap), Frame::Write(lapp), Frame::Apply1(t), Frame::Write(lsel)];
    let s5 = seq![
        Frame::Write(ap),
        Frame::Write(lapp),
        Frame::Apply1(t),
        Frame::Write(lsel),
        Frame::Apply1(h),
    ];
    let s6 = seq![Frame::Write(ap), Frame::Write(lapp)];
    let c1 = spec_step(c0);
    assert(c1 =~~= Cfg { nodes, env, stack: s1, ctrl: Ctrl::Eval(pr), ops });
    let c2 = spec_step(c1);
    assert(c2 =~~= Cfg {
        nodes,
        env,
        stack: s1,
        ctrl: Ctrl::Ret(Value::Partial1(PartialAp::Cons_1, h, t)),
        ops,
    });
    let c3 = spec_step(c2);
    assert(s1.drop_last() =~= s2);
    assert(c3 =~~= Cfg { nodes: nodes2, env, stack: s2, ctrl: Ctrl::Eval(lapp), ops });
    let c4 = spec_step(c3);
    assert(s2.push(Frame::Write(lapp)).push(Frame::Apply1(t)) =~= s3);
    assert(c4 =~~= Cfg { nodes: nodes2, env, stack: s3, ctrl: Ctrl::Eval(lsel), ops });
    let c5 = spec_step(c4);
    assert(s3.push(Frame::Write(lsel)).push(Frame::Apply1(h)) =~= s5);
    assert(c5 =~~= Cfg { nodes: nodes2, env, stack: s5, ctrl: Ctrl::Eval(sl), ops });
    let c6 = spec_step(c5);
    assert(c6 =~~= Cfg {
        nodes: nodes2,
        env,
        stack: s5,
        ctrl: Ctrl::Ret(Value::BuiltIn(BuiltIn::False)),
        ops,
    });
    let c7 = spec_step(c6);
    assert(s5.drop_last() =~= s4);
    assert(c7 =~~= Cfg {
        nodes: nodes2,
        env,
        stack: s4,
        ctrl: Ctrl::Ret(Value::Partial0(PartialAp::False_0, h)),
        ops,
    });
    let c8 = spec_step(c7);
    assert(s4.drop_last() =~= s3);
    assert(c8 =~~= Cfg {
        nodes: nodes3,
        env,
        stack: s3,
        ctrl: Ctrl::Ret(Value::Partial0(PartialAp::False_0, h)),
        ops,
    });
    let c9 = spec_step(c8);
    assert(s3.drop_last() =~= s6);
    assert(c9 =~~= Cfg { nodes: nodes3, env, stack: s6, ctrl: Ctrl::Eval(t), ops });
    assert(spec_run(c0, 0) == c0);
    assert(spec_run(c0, 1) == spec_step(spec_run(c0, 0)));
    assert(spec_run(c0, 2) == spec_step(spec_run(c0, 1)));
    assert(spec_run(c0, 3) == spec_step(spec_run(c0, 2)));
    assert(spec_run(c0, 4) == spec_step(spec_run(c0, 3)));
    assert(spec_run(c0, 5) == spec_step(spec_run(c0, 4)));
    assert(spec_run(c0, 6) == spec_step(spec_run(c0, 5)));
    assert(spec_run(c0, 7) == spec_step(spec_run(c0, 6)));
    assert(spec_run(c0, 8) == spec_step(spec_run(c0, 7)));
    assert(spec_run(c0, 9) == spec_step(spec_run(c0, 8)));
    assert(spec_run(c0, 9) == c9);
    lemma_write_frame(ch, lapp, n);
    let m1 = choose|m1: nat|
        (#[trigger] spec_run(lift(ch, Frame::Write(lapp)), m1)).ctrl == spec_run(ch, n).ctrl;
    let cl1 = lift(ch, Frame::Write(lapp));
    lemma_write_frame(cl1, ap, m1);
    let m2 = choose|m2: nat|
        (#[trigger] spec_run(lift(cl1, Frame::Write(ap)), m2)).ctrl == spec_run(cl1, m1).ctrl;
    assert(lift(cl1, Frame::Write(ap)) =~~= c9);
    lemma_run_add(c0, 9, m2);
    assert(spec_run(c0, 9 + m2).ctrl == Ctrl::Done(v));
}

/// The S combinator: `s a b c` rewrites to `(a c)(b c)` over freshly
/// allocated applications of the shared argument `c`, and evaluates to
/// whatever that rewritten graph evaluates to (in the arena left behind
/// by forcing the partial applications).
#[verifier::rlimit(100)]
#[verifier::spinoff_prover]
pub proof fn lemma_s_law(
    nodes: Seq<Value>,
    env: Seq<Option<usize>>,
    ops: nat,
    a3: usize,
    a2: usize,
    a1: usize,
    s0: usize,
    a: usize,
    b: usize,
    c: usize,
    v: Value,
    n: nat,
)
    requires
        a3 < nodes.len(),
        nodes[a3 as int] == Value::Apply(a2, c),
        a2 < nodes.len(),
        nodes[a2 as int] == Value::Apply(a1, b),
        a1 < nodes.len(),
        nodes[a1 as int] == Value::Apply(s0, a),
        s0 < nodes.len(),
        nodes[s0 as int] == Value::BuiltIn(BuiltIn::S),
        nodes.len() + 67 <= usize::MAX,
        ({
            let base = nodes.len();
            let nodes4 = nodes.update(a1 as int, Value::Partial0(PartialAp::S_0, a)).update(
                a2 as int,
                Value::Partial1(PartialAp::S_1, a, b),
            ).push(Value::Apply(a, c)).push(Value::Apply(b, c)).push(
                Value::Apply(base as usize, (base + 1) as usize),
            );
            spec_run(
                Cfg {
                    nodes: nodes4,
                    env,
                    stack: Seq::empty(),
                    ctrl: Ctrl::Eval((base + 2) as usize),
                    ops,
                },
                n,
            ).ctrl == Ctrl::Done(v)
        }),
    ensures
        exists|m: nat|
            (#[trigger] spec_run(
                Cfg { nodes, env, stack: Seq::empty(), ctrl: Ctrl::Eval(a3), ops },
                m,
            )).ctrl == Ctrl::Done(v),
{
    let c0 = Cfg { nodes, env, stack: Seq::empty(), ctrl: Ctrl::Eval(a3), ops };
    let base = nodes.len();
    let nodesb = nodes.update(a1 as int, Value::Partial0(PartialAp::S_0, a));
    let nodesc = nodesb.update(a2 as int, Value::Partial1(PartialAp::S_1, a, b));
    let nodes4 = nodesc.push(Value::Apply(a, c)).push(Value::Apply(b, c)).push(
        Value::Apply(base as usize, (base + 1) as usize),
    );
    let root = (base + 2) as usize;
    let cs = Cfg { nodes: nodes4, env, stack: Seq::empty(), ctrl: Ctrl::Eval(root), ops };
    let s1 = seq![Frame::Write(a3), Frame::Apply1(c)];
    let s2 = seq![Frame::Write(a3), Frame::Apply1(c), Frame::Write(a2), Frame::Apply1(b)];
    let s3 = seq![
        Frame::Write(a3),
        Frame::Apply1(c),
        Frame::Write(a2),
        Frame::Apply1(b),
        Frame::Write(a1),
        Frame::Apply1(a),
    ];
    let s4 = seq![
        Frame::Write(a3),
        Frame::Apply1(c),
        Frame::Write(a2),
        Frame::Apply1(b),
        Frame::Write(a1),
    ];
    let s5 = seq![Frame::Write(a3), Frame::Apply1(c), Frame::Write(a2)];
    let s6 = seq![Frame::Write(a3), Frame::Apply1(c)];
    let s7 = seq![Frame::Write(a3)];
    let c1 = spec_step(c0);
    assert(c1 =~~= Cfg { nodes, env, stack: s1, ctrl: Ctrl::Eval(a2), ops });
    let c2 = spec_step(c1);
    assert(s1.push(Frame::Write(a2)).push(Frame::Apply1(b)) =~= s2);
    assert(c2 =~~= Cfg { nodes, env, stack: s2, ctrl: Ctrl::Eval(a1), ops });
    let c3 = spec_step(c2);
    assert(s2.push(Frame::Write(a1)).push(Frame::Apply1(a)) =~= s3);
    assert(c3 =~~= Cfg { nodes, env, stack: s3, ctrl: Ctrl::Eval(s0), ops });
    let c4 = spec_step(c3);
    assert(c4 =~~= Cfg {
        nodes,
        env,
        stack: s3,
        ctrl: Ctrl::Ret(Value::BuiltIn(BuiltIn::S)),
        ops,
    });
    let c5 = spec_step(c4);
    assert(s3.drop_last() =~= s4);
    assert(c5 =~~= Cfg {
        nodes,
        env,
        stack: s4,
        ctrl: Ctrl::Ret(Value::Partial0(PartialAp::S_0, a)),
        ops,
    });
    let c6 = spec_step(c5);
    assert(s4.drop_last() =~= s2);
    assert(c6 =~~= Cfg {
        nodes: nodesb,
        env,
        stack: s2,
        ctrl: Ctrl::Ret(Value::Partial0(PartialAp::S_0, a)),
        ops,
    });
    let c7 = spec_step(c6);
    assert(s2.drop_last() =~= s5);
    assert(c7 =~~= Cfg {
        nodes: nodesb,
        env,
        stack: s5,
        ctrl: Ctrl::Ret(Value::Partial1(PartialAp::S_1, a, b)),
        ops,
    });
    let c8 = spec_step(c7);
    assert(s5.drop_last() =~= s6);
    assert(c8 =~~= Cfg {
        nodes: nodesc,
        env,
        stack: s6,
        ctrl: Ctrl::Ret(Value::Partial1(PartialAp::S_1, a, b)),
        ops,
    });
    let c9 = spec_step(c8);
    assert(s6.drop_last() =~= s7);
    assert(c9 =~~= Cfg { nodes: nodes4, env, stack: s7, ctrl: Ctrl::Eval(root), ops });
    assert(spec_run(c0, 0) == c0);
    assert(spec_run(c0, 1) == spec_step(spec_run(c0, 0)));
    assert(spec_run(c0, 2) == spec_step(spec_run(c0, 1)));
    assert(spec_run(c0, 3) == spec_step(spec_run(c0, 2)));
    assert(spec_run(c0, 4) == spec_step(spec_run(c0, 3)));
    assert(spec_run(c0, 5) == spec_step(spec_run(c0, 4)));
    assert(spec_run(c0, 6) == spec_step(spec_run(c0, 5)));
    assert(spec_run(c0, 7) == spec_step(spec_run(c0, 6)));
    assert(spec_run(c0, 8) == spec_step(spec_run(c0, 7)));
    assert(spec_run(c0, 9) == spec_step(spec_run(c0, 8)));
    assert(spec_run(c0, 9) == c9);
    lemma_write_frame(cs, a3, n);
    let m1 = choose|m1: nat|
        (#[trigger] spec_run(lift(cs, Frame::Write(a3)), m1)).ctrl == spec_run(cs, n).ctrl;
    assert(lift(cs, Frame::Write(a3)) =~~= c9);
    lemma_run_add(c0, 9, m1);
    assert(spec_run(c0, 9 + m1).ctrl == Ctrl::Done(v));
}

} // verus!
