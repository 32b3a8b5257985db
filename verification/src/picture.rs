//! The picture builder: turns decoded draw data (lists of coordinate
//! pairs) into pictures.  Used only for visualising a round's output; the
//! drawing surface itself lives outside this library.

use vstd::prelude::*;
use crate::errors::Error;
use crate::modem::mag;
use crate::nested::NestedList;
use crate::eval::State;
use crate::bridge::spec_eval_nested;

verus! {

/// One pixel of a picture.
#[derive(Debug, Clone, Copy, PartialEq, Eq, Hash, Structural)]
pub struct Point {
    pub x: i64,
    pub y: i64,
}

/// A picture: a canvas size and the pixels set on it.
#[derive(Debug, PartialEq)]
pub struct Picture {
    pub width: u64,
    pub height: u64,
    pub points: Vec<Point>,
}

impl Clone for Picture {
    fn clone(&self) -> (r: Self)
        ensures
            r.width == self.width,
            r.height == self.height,
            r.points@ == self.points@,
    {
        let mut pts: Vec<Point> = Vec::new();
        let mut i: usize = 0;
        while i < self.points.len()
            invariant
                i <= self.points@.len(),
                pts@ == self.points@.take(i as int),
            decreases self.points@.len() - i,
        {
            pts.push(self.points[i]);
            i = i + 1;
            proof {
                assert(pts@ =~= self.points@.take(i as int));
            }
        }
        proof {
            assert(self.points@.take(i as int) =~= self.points@);
        }
        Picture { width: self.width, height: self.height, points: pts }
    }
}

impl Picture {
    /// An empty picture.
    pub fn new() -> (r: Picture)
        ensures
            r.width == 0,
            r.height == 0,
            r.points@ == Seq::<Point>::empty(),
    {
        Picture { width: 0, height: 0, points: Vec::new() }
    }

    /// Sets the pixel `(x, y)`, growing the canvas to cover it.
    pub fn add(&mut self, x: i64, y: i64)
        requires
            x >= 0,
            y >= 0,
        ensures
            final(self).width == (if x as int + 1 > old(self).width {
                x as int + 1
            } else {
                old(self).width as int
            }),
            final(self).height == (if y as int + 1 > old(self).height {
                y as int + 1
            } else {
                old(self).height as int
            }),
            final(self).points@ == old(self).points@.push(Point { x, y }),
    {
        if (x as u64) >= self.width {
            self.width = (x as u64) + 1;
        }
        if (y as u64) >= self.height {
            self.height = (y as u64) + 1;
        }
        self.points.push(Point { x, y });
    }
}

/// The coordinate pairs held by a draw list: a well-formed draw list is a
/// list of `(x, y)` pairs of numbers.
pub open spec fn spec_points_list(l: NestedList) -> Option<Seq<(i64, i64)>>
    decreases l,
{
    match l {
        NestedList::Nil => Some(Seq::empty()),
        NestedList::Cons(h, t) => match *h {
            NestedList::Cons(xv, yv) => match (*xv, *yv) {
                (NestedList::Number(x), NestedList::Number(y)) => match spec_points_list(*t) {
                    None => None,
                    Some(rest) => Some(seq![(x, y)] + rest),
                },
                _ => None,
            },
            _ => None,
        },
        _ => None,
    }
}

/// The point-list of each picture in a multi-draw list.
pub open spec fn spec_pictures_shape(l: NestedList) -> Option<Seq<Seq<(i64, i64)>>>
    decreases l,
{
    match l {
        NestedList::Nil => Some(Seq::empty()),
        NestedList::Cons(h, t) => match spec_points_list(*h) {
            None => None,
            Some(pts) => match spec_pictures_shape(*t) {
                None => None,
                Some(rest) => Some(seq![pts] + rest),
            },
        },
        _ => None,
    }
}

/// The largest magnitude among the first coordinates.
pub open spec fn max_abs_fst(pts: Seq<(i64, i64)>) -> nat
    decreases pts.len(),
{
    if pts.len() == 0 {
        0
    } else {
        let m = max_abs_fst(pts.drop_last());
        let v = mag(pts.last().0 as int);
        if v > m {
            v
        } else {
            m
        }
    }
}

/// The largest magnitude among the second coordinates.
pub open spec fn max_abs_snd(pts: Seq<(i64, i64)>) -> nat
    decreases pts.len(),
{
    if pts.len() == 0 {
        0
    } else {
        let m = max_abs_snd(pts.drop_last());
        let v = mag(pts.last().1 as int);
        if v > m {
            v
        } else {
            m
        }
    }
}

/// Twice `m`, clamped to the 64-bit unsigned range.
pub open spec fn twice_clamped(m: nat) -> nat {
    if 2 * m > u64::MAX {
        u64::MAX as nat
    } else {
        2 * m
    }
}

/// Whether `p` is the picture built from the coordinate pairs `pts`: the
/// pixels are the pairs in order, and the canvas spans twice the largest
/// magnitude in each direction (the picture is not re-centered when
/// displayed), except that no canvas is claimed for an empty list.
pub open spec fn picture_matches(p: Picture, pts: Seq<(i64, i64)>) -> bool {
    &&& p.points@ == pts.map_values(|q: (i64, i64)| Point { x: q.0, y: q.1 })
    &&& p.width == (if pts.len() == 0 {
        0nat
    } else {
        twice_clamped(max_abs_fst(pts))
    })
    &&& p.height == (if pts.len() == 0 {
        0nat
    } else {
        twice_clamped(max_abs_snd(pts))
    })
}

/// The magnitude of a number as an unsigned word.
fn abs_u64(x: i64) -> (r: u64)
    ensures
        r as nat == mag(x as int),
{
    if x == i64::MIN {
        0x8000_0000_0000_0000u64
    } else if x < 0 {
        (-x) as u64
    } else {
        x as u64
    }
}

/// Builds pictures out of decoded draw data.
#[derive(Debug)]
pub struct PictureBuilder {
    pub points: Vec<(i64, i64)>,
}

impl PictureBuilder {
    /// Builds the picture covering the given coordinate pairs.
    pub fn from_points(points: Vec<(i64, i64)>) -> (r: Picture)
        ensures
            picture_matches(r, points@),
    {
        if points.len() == 0 {
            proof {
                assert(points@.map_values(|q: (i64, i64)| Point { x: q.0, y: q.1 })
                    =~= Seq::<Point>::empty());
            }
            return Picture::new();
        }
        let ghost pts = points@;
        let mut mx: u64 = 0;
        let mut my: u64 = 0;
        let mut pic_points: Vec<Point> = Vec::new();
        let mut i: usize = 0;
        while i < points.len()
            invariant
                i <= pts.len(),
                pts == points@,
                mx as nat == max_abs_fst(pts.take(i as int)),
                my as nat == max_abs_snd(pts.take(i as int)),
                pic_points@ == pts.take(i as int).map_values(
                    |q: (i64, i64)| Point { x: q.0, y: q.1 },
                ),
            decreases pts.len() - i,
        {
            let (x, y) = points[i];
            let ax = abs_u64(x);
            let ay = abs_u64(y);
            if ax > mx {
                mx = ax;
            }
            if ay > my {
                my = ay;
            }
            pic_points.push(Point { x, y });
            i = i + 1;
            proof {
                assert(pts.take(i as int).drop_last() =~= pts.take(i - 1));
                assert(pts.take(i as int).last() == pts[i - 1]);
                assert(pic_points@ =~= pts.take(i as int).map_values(
                    |q: (i64, i64)| Point { x: q.0, y: q.1 },
                ));
            }
        }
        proof {
            assert(pts.take(i as int) =~= pts);
        }
        let width: u64 = if mx > u64::MAX / 2 {
            u64::MAX
        } else {
            2 * mx
        };
        let height: u64 = if my > u64::MAX / 2 {
            u64::MAX
        } else {
            2 * my
        };
        Picture { width, height, points: pic_points }
    }

    /// Builds one picture from a draw list (a list of coordinate pairs).
    pub fn from_nested_list_one(list: NestedList) -> (r: Result<Picture, Error>)
        ensures
            match spec_points_list(list) {
                None => r == Err::<Picture, Error>(Error::TypeMismatch),
                Some(pts) => match r {
                    Ok(p) => picture_matches(p, pts),
                    _ => false,
                },
            },
    {
        let mut points: Vec<(i64, i64)> = Vec::new();
        let mut cur = list;
        loop
            invariant
                match spec_points_list(cur) {
                    None => spec_points_list(list) is None,
                    Some(rest) => match spec_points_list(list) {
                        Some(all) => all == points@ + rest,
                        None => false,
                    },
                },
            ensures
                spec_points_list(list) == Some(points@),
            decreases cur,
        {
            match cur {
                NestedList::Nil => {
                    proof {
                        assert(points@ + Seq::<(i64, i64)>::empty() =~= points@);
                    }
                    break ;
                },
                NestedList::Cons(h, t) => {
                    match *h {
                        NestedList::Cons(xv, yv) => {
                            match (*xv, *yv) {
                                (NestedList::Number(x), NestedList::Number(y)) => {
                                    let ghost before = points@;
                                    points.push((x, y));
                                    proof {
                                        assert(match spec_points_list(*t) {
                                            None => true,
                                            Some(rest2) => before + (seq![(x, y)] + rest2)
                                                =~= points@ + rest2,
                                        });
                                    }
                                    cur = *t;
                                },
                                _ => {
                                    return Err(Error::TypeMismatch);
                                },
                            }
                        },
                        _ => {
                            return Err(Error::TypeMismatch);
                        },
                    }
                },
                _ => {
                    return Err(Error::TypeMismatch);
                },
            }
        }
        Ok(Self::from_points(points))
    }

    /// Builds the pictures of a multi-draw list (a list of draw lists).
    pub fn from_nested_list(list: NestedList) -> (r: Result<Vec<Picture>, Error>)
        ensures
            match spec_pictures_shape(list) {
                None => r == Err::<Vec<Picture>, Error>(Error::TypeMismatch),
                Some(ls) => match r {
                    Ok(ps) => ps@.len() == ls.len() && (forall|i: int|
                        0 <= i < ls.len() ==> picture_matches(#[trigger] ps@[i], ls[i])),
                    _ => false,
                },
            },
    {
        let mut result: Vec<Picture> = Vec::new();
        let mut cur = list;
        loop
            invariant
                match spec_pictures_shape(cur) {
                    None => spec_pictures_shape(list) is None,
                    Some(rest) => match spec_pictures_shape(list) {
                        Some(all) => all.len() == result@.len() + rest.len() && (forall|i: int|
                            0 <= i < result@.len() ==> picture_matches(
                                #[trigger] result@[i],
                                all[i],
                            )) && (forall|i: int|
                            result@.len() <= i < all.len() ==> all[i] == rest[
                                i - result@.len()
                            ]),
                        None => false,
                    },
                },
            ensures
                match spec_pictures_shape(list) {
                    Some(all) => all.len() == result@.len() && (forall|i: int|
                        0 <= i < all.len() ==> picture_matches(#[trigger] result@[i], all[i])),
                    None => false,
                },
            decreases cur,
        {
            match cur {
                NestedList::Nil => {
                    break ;
                },
                NestedList::Cons(h, t) => {
                    let p = match Self::from_nested_list_one(*h) {
                        Ok(p) => p,
                        Err(e) => {
                            return Err(e);
                        },
                    };
                    result.push(p);
                    cur = *t;
                },
                _ => {
                    return Err(Error::TypeMismatch);
                },
            }
        }
        Ok(result)
    }
}

impl State {
    /// Reduces node `id` to a draw list and builds its picture.
    pub fn eval_draw(&mut self, id: usize, max_steps: u64, max_depth: u64) -> (r: Result<
        Picture,
        Error,
    >)
        ensures
            final(self).env == old(self).env,
            final(self).names == old(self).names,
            ({
                let p = spec_eval_nested(
                    old(self).nodes@,
                    old(self).env@,
                    old(self).ops as nat,
                    id,
                    max_steps,
                    max_depth,
                );
                final(self).nodes@ == p.0 && final(self).ops as nat == p.1 && (match p.2 {
                    Err(e) => r == Err::<Picture, Error>(e),
                    Ok(v) => match spec_points_list(v) {
                        None => r == Err::<Picture, Error>(Error::TypeMismatch),
                        Some(pts) => match r {
                            Ok(pic) => picture_matches(pic, pts),
                            _ => false,
                        },
                    },
                })
            }),
    {
        let v = match self.eval_nested_list(id, max_steps, max_depth) {
            Ok(v) => v,
            Err(e) => {
                return Err(e);
            },
        };
        PictureBuilder::from_nested_list_one(v)
    }

    /// Reduces node `id` to a multi-draw list and builds its pictures.
    pub fn eval_multidraw(&mut self, id: usize, max_steps: u64, max_depth: u64) -> (r: Result<
        Vec<Picture>,
        Error,
    >)
        ensures
            final(self).env == old(self).env,
            final(self).names == old(self).names,
            ({
                let p = spec_eval_nested(
                    old(self).nodes@,
                    old(self).env@,
                    old(self).ops as nat,
                    id,
                    max_steps,
                    max_depth,
                );
                final(self).nodes@ == p.0 && final(self).ops as nat == p.1 && (match p.2 {
                    Err(e) => r == Err::<Vec<Picture>, Error>(e),
                    Ok(v) => match spec_pictures_shape(v) {
                        None => r == Err::<Vec<Picture>, Error>(Error::TypeMismatch),
                        Some(ls) => match r {
                            Ok(ps) => ps@.len() == ls.len() && (forall|i: int|
                                0 <= i < ls.len() ==> picture_matches(#[trigger] ps@[i], ls[i])),
                            _ => false,
                        },
                    },
                })
            }),
    {
        let v = match self.eval_nested_list(id, max_steps, max_depth) {
            Ok(v) => v,
            Err(e) => {
                return Err(e);
            },
        };
        PictureBuilder::from_nested_list(v)
    }

    /// Reduces node `id`, expecting a list of draw lists, and builds one
    /// picture per entry.
    pub fn eval_picture_list(&mut self, id: usize, max_steps: u64, max_depth: u64) -> (r: Result<
        Vec<Picture>,
        Error,
    >)
        ensures
            final(self).env == old(self).env,
            final(self).names == old(self).names,
            ({
                let p = spec_eval_nested(
                    old(self).nodes@,
                    old(self).env@,
                    old(self).ops as nat,
                    id,
                    max_steps,
                    max_depth,
                );
                final(self).nodes@ == p.0 && final(self).ops as nat == p.1 && (match p.2 {
                    Err(e) => r == Err::<Vec<Picture>, Error>(e),
                    Ok(v) => match spec_pictures_shape(v) {
                        None => r == Err::<Vec<Picture>, Error>(Error::TypeMismatch),
                        Some(ls) => match r {
                            Ok(ps) => ps@.len() == ls.len() && (forall|i: int|
                                0 <= i < ls.len() ==> picture_matches(#[trigger] ps@[i], ls[i])),
                            _ => false,
                        },
                    },
                })
            }),
    {
        self.eval_multidraw(id, max_steps, max_depth)
    }
}

} // verus!
