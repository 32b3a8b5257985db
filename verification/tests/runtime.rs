use galaxy::runtime::{ap, cons, nil, Value};

fn to_num_vec(v: Value) -> Vec<i64> {
    v.unwrap_list()
        .into_iter()
        .map(|v| v.unwrap_number())
        .rev() // stored in reverse
        .collect()
}

#[test]
fn test_runtime_list_construction() {
    // cons 1 (cons 2 nil), applied one argument at a time
    let l = ap(ap(cons(), Value::Number(2)), nil());
    let l2 = ap(ap(cons(), Value::Number(1)), l);
    assert_eq!(to_num_vec(l2), vec![1, 2]);
}

#[test]
fn test_runtime_unwrap() {
    assert_eq!(Value::Number(7).unwrap_number(), 7);
    let l = ap(ap(cons(), Value::Number(9)), nil());
    let items = l.unwrap_list();
    assert_eq!(items.len(), 1);
}

#[test]
fn test_runtime_placeholders() {
    assert!(matches!(galaxy::runtime::inc(), Value::Number(0)));
    assert!(matches!(galaxy::runtime::isnil(), Value::Number(0)));
    assert!(matches!(nil(), Value::List(_)));
}
