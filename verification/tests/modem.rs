use galaxy::errors::Error;
use galaxy::modem::demodulate;
use galaxy::modem::{dem_list, mod_list};
use galaxy::nested::NestedList;
use galaxy::nested::NestedList::{Cons, Nil, Number};

fn n(num: i64) -> NestedList {
    NestedList::Number(num)
}

fn v(s: &str) -> Vec<bool> {
    s.chars().map(|c| if c == '1' { true } else { false }).collect()
}

fn cons(a: NestedList, b: NestedList) -> NestedList {
    Cons(Box::new(a), Box::new(b))
}

#[test]
fn test_mod_num() {
    assert_eq!(mod_list(&n(0)), v("010"));
    assert_eq!(mod_list(&n(1)), v("01100001"));
    assert_eq!(mod_list(&n(-1)), v("10100001"));
    assert_eq!(mod_list(&n(2)), v("01100010"));
    assert_eq!(mod_list(&n(-2)), v("10100010"));
    assert_eq!(mod_list(&n(16)), v("0111000010000"));
    assert_eq!(mod_list(&n(-16)), v("1011000010000"));
    assert_eq!(mod_list(&n(255)), v("0111011111111"));
    assert_eq!(mod_list(&n(-255)), v("1011011111111"));
    assert_eq!(mod_list(&n(256)), v("011110000100000000"));
    assert_eq!(mod_list(&n(-256)), v("101110000100000000"));
}

#[test]
fn test_mod_list() {
    assert_eq!(mod_list(&Nil), v("00"));
    assert_eq!(mod_list(&cons(Nil, Nil)), v("110000"));
    assert_eq!(mod_list(&cons(Number(0), Nil)), v("1101000"));
    assert_eq!(
        mod_list(&cons(Number(1), Number(2))),
        v("110110000101100010")
    );
    assert_eq!(
        mod_list(&cons(Number(1), cons(Number(2), Nil))),
        v("1101100001110110001000")
    );
    let second_item = cons(Number(2), cons(Number(3), Nil));
    let woosh = cons(Number(1), cons(second_item, cons(Number(4), Nil)));
    assert_eq!(
        mod_list(&woosh),
        v("1101100001111101100010110110001100110110010000")
    );
}

#[test]
fn test_modem() {
    let cons = |a, b| NestedList::Cons(Box::new(a), Box::new(b));
    let num = |x| NestedList::Number(x);
    let nil = || NestedList::Nil;

    assert_eq!(dem_list(&v("010")), n(0));
    assert_eq!(dem_list(&v("0111000010000")), n(16));
    assert_eq!(dem_list(&v("00")), nil());
    assert_eq!(dem_list(&v("1101000")), cons(Number(0), Nil));

    let var0 = cons(Number(0), Nil);
    assert_eq!(var0, dem_list(&mod_list(&var0)));

    let var1 = cons(num(1), cons(num(2), cons(num(3), nil())));
    assert_eq!(var1, dem_list(&mod_list(&var1)));

    let var2 = cons(cons(num(1), num(2)), cons(nil(), nil()));
    assert_eq!(var2, dem_list(&mod_list(&var2)));
}

#[test]
fn test_codec_round_trip_extremes() {
    let vals = vec![
        n(i64::MIN),
        n(i64::MAX),
        n(-12345678901234567),
        cons(n(i64::MIN), cons(n(-1), n(i64::MAX))),
        cons(cons(cons(Nil, n(7)), Nil), cons(n(-8), Nil)),
    ];
    for val in vals {
        let bits = mod_list(&val);
        let mut with_tail = bits.clone();
        with_tail.push(true);
        with_tail.push(false);
        // trailing bits are ignored: exactly one value is consumed
        assert_eq!(dem_list(&with_tail), val);
        assert_eq!(dem_list(&bits), val);
    }
}

#[test]
fn test_codec_rejects_malformed() {
    // truncated inputs
    assert_eq!(demodulate(&v("0"), 0), Err(Error::MalformedEncoding));
    assert_eq!(demodulate(&v("01"), 0), Err(Error::MalformedEncoding));
    assert_eq!(demodulate(&v("11"), 0), Err(Error::MalformedEncoding));
    assert_eq!(demodulate(&v("0111"), 0), Err(Error::MalformedEncoding));
    // a cons whose tail is missing
    assert_eq!(demodulate(&v("1100"), 0), Err(Error::MalformedEncoding));
    // the unary length code never ends
    assert_eq!(demodulate(&v("011111"), 0), Err(Error::MalformedEncoding));
}
