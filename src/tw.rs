//! Composing CSS class lists.

use vstd::prelude::*;
use crate::text::push_str;

verus! {

/// A value that may contribute a class name; empty text contributes none.
pub trait TwClass {
    spec fn class_view(&self) -> Option<Seq<char>>;

    fn to_class_str(&self) -> (r: Option<&str>)
        ensures
            match r {
                Option::Some(s) => self.class_view() == Option::Some(s@),
                Option::None => self.class_view() is None,
            },
    ;
}

impl<'a> TwClass for &'a str {
    open spec fn class_view(&self) -> Option<Seq<char>> {
        if (*self)@.len() == 0 {
            None
        } else {
            Some((*self)@)
        }
    }

    fn to_class_str(&self) -> (r: Option<&str>) {
        if self.is_empty() {
            None
        } else {
            Some(*self)
        }
    }
}

impl TwClass for String {
    open spec fn class_view(&self) -> Option<Seq<char>> {
        if self@.len() == 0 {
            None
        } else {
            Some(self@)
        }
    }

    fn to_class_str(&self) -> (r: Option<&str>) {
        if self.as_str().is_empty() {
            None
        } else {
            Some(self.as_str())
        }
    }
}

impl<T: TwClass> TwClass for Option<T> {
    open spec fn class_view(&self) -> Option<Seq<char>> {
        match self {
            Option::Some(v) => v.class_view(),
            Option::None => None,
        }
    }

    fn to_class_str(&self) -> (r: Option<&str>) {
        match self {
            Some(v) => v.to_class_str(),
            None => None,
        }
    }
}

/// The classes that are present, separated by single spaces.
pub open spec fn class_list(parts: Seq<Option<Seq<char>>>) -> Seq<char>
    decreases parts.len(),
{
    if parts.len() == 0 {
        Seq::empty()
    } else {
        let rest = class_list(parts.drop_last());
        match parts.last() {
            Option::None => rest,
            Option::Some(c) => if rest.len() == 0 {
                c
            } else {
                rest + " "@ + c
            },
        }
    }
}

pub open spec fn parts_view(parts: Seq<Option<&str>>) -> Seq<Option<Seq<char>>> {
    parts.map_values(
        |p: Option<&str>|
            match p {
                Option::Some(s) => Option::Some(s@),
                Option::None => Option::None,
            },
    )
}

/// Joins the classes that are present with single spaces.
pub fn join_classes(parts: &Vec<Option<&str>>) -> (r: String)
    ensures
        r@ == class_list(parts_view(parts@)),
{
    let ghost pv = parts_view(parts@);
    let mut r = String::new();
    let mut k: usize = 0;
    while k < parts.len()
        invariant
            k <= parts.len(),
            pv == parts_view(parts@),
            r@ == class_list(pv.take(k as int)),
        decreases parts.len() - k,
    {
        proof {
            assert(pv.take(k + 1).drop_last() =~= pv.take(k as int));
        }
        match parts[k] {
            Some(c) => {
                if r.as_str().is_empty() {
                    push_str(&mut r, c);
                    proof {
                        assert(r@ =~= c@);
                    }
                } else {
                    push_str(&mut r, " ");
                    push_str(&mut r, c);
                }
            },
            None => {},
        }
        k = k + 1;
    }
    proof {
        assert(pv.take(k as int) =~= pv);
    }
    r
}

} // verus!
