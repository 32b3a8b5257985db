use galaxy::errors::Error;
use galaxy::nested::NestedList;
use galaxy::nested::NestedList::{Cons, Nil, Number};
use galaxy::picture::{Picture, PictureBuilder};

fn cons(a: NestedList, b: NestedList) -> NestedList {
    Cons(Box::new(a), Box::new(b))
}

fn pair(x: i64, y: i64) -> NestedList {
    cons(Number(x), Number(y))
}

#[test]
fn test_picture_from_points() {
    // one draw list with three points; the canvas spans twice the
    // largest magnitude in each direction
    let draw = cons(pair(1, 2), cons(pair(-3, 0), cons(pair(2, -1), Nil)));
    let pics = PictureBuilder::from_nested_list(cons(draw, Nil)).expect("well-formed draw data");
    assert_eq!(pics.len(), 1);
    let p = &pics[0];
    assert_eq!(p.points.len(), 3);
    assert_eq!((p.points[1].x, p.points[1].y), (-3, 0));
    assert_eq!(p.width, 6);
    assert_eq!(p.height, 4);
}

#[test]
fn test_picture_rejects_bad_shapes() {
    // a draw list entry that is not a pair
    let bad = cons(cons(Number(1), Nil), Nil);
    assert!(matches!(
        PictureBuilder::from_nested_list(cons(bad, Nil)),
        Err(Error::TypeMismatch)
    ));
    // a multi-draw list that is not a list
    assert!(matches!(
        PictureBuilder::from_nested_list(Number(3)),
        Err(Error::TypeMismatch)
    ));
}

#[test]
fn test_picture_add_grows_canvas() {
    let mut p = Picture::new();
    p.add(3, 1);
    p.add(0, 5);
    assert_eq!(p.width, 4);
    assert_eq!(p.height, 6);
    assert_eq!(p.points.len(), 2);
    let q = p.clone();
    assert_eq!(q.width, 4);
    assert_eq!(q.points.len(), 2);
}
