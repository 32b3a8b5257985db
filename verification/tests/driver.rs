use galaxy::errors::Error;
use galaxy::eval::State;
use galaxy::interact::{
    interact_resume, interact_step, run_interaction, InteractionResult, RoundOutcome,
};
use galaxy::modem::mod_list;
use galaxy::nested::NestedList;
use galaxy::nested::NestedList::{Cons, Nil, Number};
use galaxy::syntax::{parse_line, Var};

const STEPS: u64 = 100000;
const DEPTH: u64 = 1000;

fn load(state: &mut State, line: &str) {
    let stmt = parse_line(line).expect("program line must parse");
    state.interpret(stmt).expect("program line must compile");
}

fn cons(a: NestedList, b: NestedList) -> NestedList {
    Cons(Box::new(a), Box::new(b))
}

#[test]
fn test_driver_local_round_finishes_immediately() {
    let mut s = State::new();
    // a protocol that ignores state and input and always reports
    // flag 0, state nil, empty draw data: the round completes at once
    // with no exchange requested
    load(&mut s, "stay = ap t ap t ( 0 , nil , nil )");
    let r = run_interaction(&mut s, "stay", Nil, 3, 4, STEPS, DEPTH);
    match r {
        Ok(InteractionResult::Completed { state, pictures }) => {
            assert_eq!(state, Nil);
            assert_eq!(pictures.len(), 0);
        }
        other => panic!("expected a completed round, got {:?}", other),
    }
}

#[test]
fn test_driver_one_exchange_then_finishes() {
    let mut s = State::new();
    // on a nil state the protocol asks for an exchange (flag 1, new
    // state 1, payload data (7)); on any other state it finishes with
    // flag 0 and new state 2
    load(
        &mut s,
        "proto = ap ap b t ap ap c ap ap c isnil ( 1 , 1 , ( 7 ) ) ( 0 , 2 , nil )",
    );
    let first = interact_step(
        &mut s,
        &Var::Named("proto".to_string()),
        Nil,
        cons(Number(0), Number(0)),
        STEPS,
        DEPTH,
    );
    let (state1, payload) = match first {
        Ok(RoundOutcome::SendNeeded { state, payload }) => (state, payload),
        other => panic!("expected a send request, got {:?}", other),
    };
    assert_eq!(state1, Number(1));
    assert_eq!(payload, mod_list(&cons(Number(7), Nil)));

    // the remote endpoint answers with the encoded number 5; exactly one
    // exchange happens before the interaction finishes
    let response = mod_list(&Number(5));
    let second = interact_resume(
        &mut s,
        &Var::Named("proto".to_string()),
        state1,
        &response,
        STEPS,
        DEPTH,
    );
    match second {
        Ok(RoundOutcome::Finished { state, data }) => {
            assert_eq!(state, Number(2));
            assert_eq!(data, Nil);
        }
        other => panic!("expected a finished round, got {:?}", other),
    }
}

#[test]
fn test_driver_rejects_bad_shapes() {
    let mut s = State::new();
    // the result is a number, not a flag/state/data triple
    load(&mut s, "bad = ap t ap t 5");
    let r = interact_step(
        &mut s,
        &Var::Named("bad".to_string()),
        Nil,
        Nil,
        STEPS,
        DEPTH,
    );
    assert!(matches!(r, Err(Error::ProtocolShapeError)));

    let r2 = interact_step(
        &mut s,
        &Var::Named("missing".to_string()),
        Nil,
        Nil,
        STEPS,
        DEPTH,
    );
    assert!(matches!(r2, Err(Error::UnboundVariable)));

    // a malformed response cannot resume an interaction
    let r3 = interact_resume(
        &mut s,
        &Var::Named("bad".to_string()),
        Nil,
        &[true],
        STEPS,
        DEPTH,
    );
    assert!(matches!(r3, Err(Error::MalformedEncoding)));
}

#[test]
fn test_driver_builds_pictures() {
    let mut s = State::new();
    // flag 0 and one draw list with the points (1, 2) and (0, 3)
    load(
        &mut s,
        "pic = ap t ap t ( 0 , nil , ( ( ap ap cons 1 2 , ap ap cons 0 3 ) ) )",
    );
    let r = run_interaction(&mut s, "pic", Nil, 0, 0, STEPS, DEPTH);
    match r {
        Ok(InteractionResult::Completed { state, pictures }) => {
            assert_eq!(state, Nil);
            assert_eq!(pictures.len(), 1);
            let p = &pictures[0];
            assert_eq!(p.points.len(), 2);
            assert_eq!((p.points[0].x, p.points[0].y), (1, 2));
            assert_eq!((p.points[1].x, p.points[1].y), (0, 3));
            assert_eq!(p.width, 2);
            assert_eq!(p.height, 6);
        }
        other => panic!("expected a completed round, got {:?}", other),
    }
}
