//! Persistent lists: immutable, singly linked, with shared tails.

use crate::model::ValueView;
use crate::value::{value_view, values_view, Value};
use std::rc::Rc;
use vstd::prelude::*;

verus! {

/// A persistent list: empty, or a value in front of a shared tail.
#[derive(Debug)]
pub enum List {
    Nil,
    Item { value: Value, next: Rc<List> },
}

/// The items of a list, in their order.
pub open spec fn list_view(list: List) -> Seq<ValueView>
    decreases list,
{
    match list {
        List::Nil => Seq::empty(),
        List::Item { value, next } => seq![value_view(value)] + list_view(*next),
    }
}

impl View for List {
    type V = Seq<ValueView>;

    open spec fn view(&self) -> Seq<ValueView> {
        list_view(*self)
    }
}

impl List {
    /// The list with `value` in front of `self`.
    pub open spec fn with_front(self, value: Value) -> List {
        List::Item { value, next: Rc::new(self) }
    }

    /// The list without its first item; the empty list stays empty.
    pub open spec fn rest(self) -> List {
        match self {
            List::Nil => List::Nil,
            List::Item { value, next } => *next,
        }
    }

    /// The first item, if there is one.
    pub open spec fn first(self) -> Option<Value> {
        match self {
            List::Nil => None,
            List::Item { value, next } => Some(value),
        }
    }

    /// The empty list.
    pub fn new() -> (r: Rc<List>)
        ensures
            *r == List::Nil,
            r@ == Seq::<ValueView>::empty(),
    {
        Rc::new(List::Nil)
    }

    /// The list of the values of `data`, in their order.
    pub fn from_slice(data: &[Value]) -> (r: Rc<List>)
        ensures
            r@ == values_view(data@),
    {
        let mut list = List::new();
        let mut i: usize = data.len();
        while i > 0
            invariant
                i <= data.len(),
                list@ == values_view(data@.subrange(i as int, data.len() as int)),
            decreases i,
        {
            i -= 1;
            list = list.push_front(data[i].clone());
            assert(list@ =~= values_view(data@.subrange(i as int, data.len() as int)));
        }
        assert(data@.subrange(0, data.len() as int) =~= data@);
        list
    }

    /// Puts `value` in front of the list. The new list shares `self` as its
    /// tail: nothing of `self` is copied or changed.
    pub fn push_front(self: Rc<Self>, value: Value) -> (r: Rc<List>)
        ensures
            *r == (*self).with_front(value),
            r@ == seq![value@] + self@,
    {
        Rc::new(List::Item { value, next: self })
    }

    /// The first item, if there is one.
    pub fn head(&self) -> (r: Option<&Value>)
        ensures
            match r {
                Some(v) => self.first() == Some(*v) && self@.len() > 0 && v@ == self@[0],
                None => self.first().is_none() && self@.len() == 0,
            },
    {
        match self {
            List::Nil => None,
            List::Item { value, .. } => Some(value),
        }
    }

    /// The list without its first item, shared with `self`. The tail of the
    /// empty list is the empty list.
    pub fn tail(&self) -> (r: Rc<List>)
        ensures
            *r == self.rest(),
            r@ == if self@.len() == 0 {
                Seq::<ValueView>::empty()
            } else {
                self@.subrange(1, self@.len() as int)
            },
    {
        match self {
            List::Nil => List::new(),
            List::Item { next, .. } => {
                assert((seq![self->value@] + next@).subrange(1, self@.len() as int) =~= next@);
                next.clone()
            },
        }
    }

    /// Whether the list is empty.
    pub fn is_nil(&self) -> (r: bool)
        ensures
            r == (*self == List::Nil),
            r == (self@.len() == 0),
    {
        match self {
            List::Nil => true,
            _ => false,
        }
    }

    /// The number of items, or `usize::MAX` should there be more than that.
    pub fn len(&self) -> (r: usize)
        ensures
            r == if self@.len() <= usize::MAX {
                self@.len()
            } else {
                usize::MAX as nat
            },
    {
        let mut count: usize = 0;
        let mut rest: &List = self;
        loop
            invariant
                count <= usize::MAX,
                self@.len() == count + rest@.len() || (count == usize::MAX && self@.len()
                    >= usize::MAX),
            decreases rest@.len(),
        {
            match rest {
                List::Nil => {
                    return count;
                },
                List::Item { next, .. } => {
                    if count < usize::MAX {
                        count += 1;
                    }
                    rest = &**next;
                },
            }
        }
    }

    /// The items of the list, in their order.
    pub fn collect(&self) -> (r: Vec<Value>)
        ensures
            values_view(r@) == self@,
    {
        let mut res: Vec<Value> = Vec::new();
        let mut rest: &List = self;
        loop
            invariant
                self@ == values_view(res@) + rest@,
            decreases rest@.len(),
        {
            match rest {
                List::Nil => {
                    assert(values_view(res@) + rest@ =~= values_view(res@));
                    return res;
                },
                List::Item { value, next } => {
                    let ghost before = res@;
                    res.push(value.clone());
                    assert(values_view(res@) =~= values_view(before).push(value@));
                    assert(values_view(res@) + next@ =~= values_view(before) + rest@);
                    rest = &**next;
                },
            }
        }
    }
}

/// Pushing a value in front and taking the tail gives back the very list
/// that was pushed onto, and the pushed value is the head.
pub proof fn lemma_push_front_tail(list: List, value: Value)
    ensures
        list.with_front(value).rest() == list,
        list.with_front(value).first() == Some(value),
        list.with_front(value)@.subrange(1, list.with_front(value)@.len() as int) == list@,
        list.with_front(value)@[0] == value@,
{
    assert((seq![value@] + list@).subrange(1, list@.len() as int + 1) =~= list@);
}

} // verus!
