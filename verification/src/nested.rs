use vstd::prelude::*;

verus! {

/// The function-free data algebra used for wire payloads and for the decoded
/// structures the interaction driver inspects: `Nil`, a pair, or a 64-bit
/// signed number.  Lists are spelled as right-nested pairs ending in `Nil`.
#[derive(Debug, PartialEq)]
pub enum NestedList {
    Nil,
    Cons(Box<NestedList>, Box<NestedList>),
    Number(i64),
}

impl Clone for NestedList {
    fn clone(&self) -> (r: Self)
        ensures
            r == *self,
        decreases self,
    {
        match self {
            NestedList::Nil => NestedList::Nil,
            NestedList::Number(n) => NestedList::Number(*n),
            NestedList::Cons(a, b) => NestedList::Cons(
                Box::new((**a).clone()),
                Box::new((**b).clone()),
            ),
        }
    }
}

impl NestedList {
    /// Splits a pair into its head and tail.
    pub fn unwrap_cons(self) -> (r: (NestedList, NestedList))
        requires
            self is Cons,
        ensures
            self == NestedList::Cons(Box::new(r.0), Box::new(r.1)),
    {
        match self {
            NestedList::Cons(a, b) => (*a, *b),
            _ => {
                proof {
                    assert(false);
                }
                (NestedList::Nil, NestedList::Nil)
            },
        }
    }

    /// Extracts the number held by a numeric leaf.
    pub fn unwrap_number(self) -> (r: i64)
        requires
            self is Number,
        ensures
            self == NestedList::Number(r),
    {
        match self {
            NestedList::Number(n) => n,
            _ => {
                proof {
                    assert(false);
                }
                0
            },
        }
    }
}

} // verus!
