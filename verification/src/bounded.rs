//! The fixed-capacity lists of the display model.
//!
//! Each list keeps its items in a `heapless::Vec`, so a list never allocates and
//! never grows past its capacity. Nothing here is proved of that vector itself:
//! what it holds is named by a specification function, and the few operations
//! used on it are stated as `heapless` documents them.

use vstd::prelude::*;
use crate::display::{
    DirectionModel, LineModel, PassageModel, TramDirectionState, TramLineState, TramNextPassage,
};

verus! {

/// The upcoming passages of one direction: at most three, in the order given.
#[verifier::external_body]
#[derive(Debug)]
pub struct PassageList {
    items: heapless::Vec<TramNextPassage, 3>,
}

/// The items that a `PassageList` holds, first to last.
pub uninterp spec fn passage_items(list: PassageList) -> Seq<TramNextPassage>;

/// `heapless::Vec::new`: a vector that holds nothing.
#[verifier::external_body]
fn passages_new() -> (list: PassageList)
    ensures
        passage_items(list) == Seq::<TramNextPassage>::empty(),
{
    PassageList { items: heapless::Vec::new() }
}

/// `heapless::Vec::as_slice`: the items held, in order; there are never more
/// of them than the capacity.
#[verifier::external_body]
fn passages_as_slice(list: &PassageList) -> (items: &[TramNextPassage])
    ensures
        items@ == passage_items(*list),
        items@.len() <= 3,
{
    list.items.as_slice()
}

/// `heapless::Vec::push`: below capacity the item is appended; at capacity the
/// vector stays as it is and the item comes back.
#[verifier::external_body]
fn passages_push(list: &mut PassageList, item: TramNextPassage) -> (outcome: Result<(), TramNextPassage>)
    ensures
        outcome is Ok <==> passage_items(*old(list)).len() < 3,
        outcome is Ok ==> passage_items(*final(list)) == passage_items(*old(list)).push(item),
        outcome is Err ==> outcome->Err_0 == item && passage_items(*final(list)) == passage_items(
            *old(list),
        ),
{
    list.items.push(item)
}

impl View for PassageList {
    type V = Seq<PassageModel>;

    open spec fn view(&self) -> Seq<PassageModel> {
        passage_items(*self).map_values(|item: TramNextPassage| item@)
    }
}

impl PassageList {
    /// The empty list.
    pub fn new() -> (list: Self)
        ensures
            passage_items(list) == Seq::<TramNextPassage>::empty(),
            list@ == Seq::<PassageModel>::empty(),
    {
        passages_new()
    }

    /// The number of passages held, never more than three.
    pub fn len(&self) -> (n: usize)
        ensures
            n == passage_items(*self).len(),
            n == self@.len(),
            n <= 3,
    {
        passages_as_slice(self).len()
    }

    /// Whether the list holds nothing.
    pub fn is_empty(&self) -> (empty: bool)
        ensures
            empty == (self@.len() == 0),
    {
        passages_as_slice(self).len() == 0
    }

    /// The passage at `index`, if there is one.
    pub fn get(&self, index: usize) -> (item: Option<&TramNextPassage>)
        ensures
            index < self@.len() ==> item == Some(&passage_items(*self)[index as int]),
            index >= self@.len() ==> item is None,
    {
        let items = passages_as_slice(self);
        if index < items.len() {
            Some(&items[index])
        } else {
            None
        }
    }

    /// The passage at `index`.
    pub(crate) fn item(&self, index: usize) -> (item: &TramNextPassage)
        requires
            index < self@.len(),
        ensures
            *item == passage_items(*self)[index as int],
            item@ == self@[index as int],
    {
        let items = passages_as_slice(self);
        &items[index]
    }

    /// Appends `item` if fewer than three passages are held; a full list stays
    /// as it is and hands the item back.
    pub fn push(&mut self, item: TramNextPassage) -> (outcome: Result<(), TramNextPassage>)
        ensures
            outcome is Ok <==> old(self)@.len() < 3,
            outcome is Ok ==> passage_items(*final(self)) == passage_items(*old(self)).push(item)
                && final(self)@ == old(self)@.push(item@),
            outcome is Err ==> outcome->Err_0 == item && passage_items(*final(self))
                == passage_items(*old(self)) && final(self)@ == old(self)@,
    {
        passages_push(self, item)
    }
}

/// The directions of one line: at most two, in the order in which they were first seen.
#[verifier::external_body]
#[derive(Debug)]
pub struct DirectionList {
    items: heapless::Vec<TramDirectionState, 2>,
}

/// The items that a `DirectionList` holds, first to last.
pub uninterp spec fn direction_items(list: DirectionList) -> Seq<TramDirectionState>;

/// `heapless::Vec::new`: a vector that holds nothing.
#[verifier::external_body]
fn directions_new() -> (list: DirectionList)
    ensures
        direction_items(list) == Seq::<TramDirectionState>::empty(),
{
    DirectionList { items: heapless::Vec::new() }
}

/// `heapless::Vec::as_slice`: the items held, in order; there are never more
/// of them than the capacity.
#[verifier::external_body]
fn directions_as_slice(list: &DirectionList) -> (items: &[TramDirectionState])
    ensures
        items@ == direction_items(*list),
        items@.len() <= 2,
{
    list.items.as_slice()
}

/// `heapless::Vec::as_mut_slice`: the items held, open to change in place;
/// what the slice holds in the end is what the vector holds.
#[verifier::external_body]
fn directions_as_mut_slice(list: &mut DirectionList) -> (items: &mut [TramDirectionState])
    ensures
        items@ == direction_items(*old(list)),
        direction_items(*final(list)) == final(items)@,
{
    list.items.as_mut_slice()
}

/// `heapless::Vec::push`: below capacity the item is appended; at capacity the
/// vector stays as it is and the item comes back.
#[verifier::external_body]
fn directions_push(list: &mut DirectionList, item: TramDirectionState) -> (outcome: Result<(), TramDirectionState>)
    ensures
        outcome is Ok <==> direction_items(*old(list)).len() < 2,
        outcome is Ok ==> direction_items(*final(list)) == direction_items(*old(list)).push(item),
        outcome is Err ==> outcome->Err_0 == item && direction_items(*final(list)) == direction_items(
            *old(list),
        ),
{
    list.items.push(item)
}

impl View for DirectionList {
    type V = Seq<DirectionModel>;

    open spec fn view(&self) -> Seq<DirectionModel> {
        direction_items(*self).map_values(|item: TramDirectionState| item@)
    }
}

impl DirectionList {
    /// The empty list.
    pub fn new() -> (list: Self)
        ensures
            direction_items(list) == Seq::<TramDirectionState>::empty(),
            list@ == Seq::<DirectionModel>::empty(),
    {
        directions_new()
    }

    /// The number of directions held, never more than two.
    pub fn len(&self) -> (n: usize)
        ensures
            n == direction_items(*self).len(),
            n == self@.len(),
            n <= 2,
    {
        directions_as_slice(self).len()
    }

    /// Whether the list holds nothing.
    pub fn is_empty(&self) -> (empty: bool)
        ensures
            empty == (self@.len() == 0),
    {
        directions_as_slice(self).len() == 0
    }

    /// The direction at `index`, if there is one.
    pub fn get(&self, index: usize) -> (item: Option<&TramDirectionState>)
        ensures
            index < self@.len() ==> item == Some(&direction_items(*self)[index as int]),
            index >= self@.len() ==> item is None,
    {
        let items = directions_as_slice(self);
        if index < items.len() {
            Some(&items[index])
        } else {
            None
        }
    }

    /// The direction at `index`.
    pub(crate) fn item(&self, index: usize) -> (item: &TramDirectionState)
        requires
            index < self@.len(),
        ensures
            *item == direction_items(*self)[index as int],
            item@ == self@[index as int],
    {
        let items = directions_as_slice(self);
        &items[index]
    }

    /// Appends `item` if fewer than two directions are held; a full list stays
    /// as it is and hands the item back.
    pub fn push(&mut self, item: TramDirectionState) -> (outcome: Result<(), TramDirectionState>)
        ensures
            outcome is Ok <==> old(self)@.len() < 2,
            outcome is Ok ==> direction_items(*final(self)) == direction_items(*old(self)).push(item)
                && final(self)@ == old(self)@.push(item@),
            outcome is Err ==> outcome->Err_0 == item && direction_items(*final(self))
                == direction_items(*old(self)) && final(self)@ == old(self)@,
    {
        directions_push(self, item)
    }

    /// Puts `item` in the place of the direction at `index`; the others stay where
    /// they are.
    pub(crate) fn replace(&mut self, index: usize, item: TramDirectionState)
        requires
            index < old(self)@.len(),
        ensures
            direction_items(*final(self)) == direction_items(*old(self)).update(index as int, item),
            final(self)@ == old(self)@.update(index as int, item@),
    {
        let items = directions_as_mut_slice(self);
        items[index] = item;
    }
}

/// The lines of the display: at most eight, in the order in which they were first seen.
#[verifier::external_body]
#[derive(Debug)]
pub struct LineList {
    items: heapless::Vec<TramLineState, 8>,
}

/// The items that a `LineList` holds, first to last.
pub uninterp spec fn line_items(list: LineList) -> Seq<TramLineState>;

/// `heapless::Vec::new`: a vector that holds nothing.
#[verifier::external_body]
fn lines_new() -> (list: LineList)
    ensures
        line_items(list) == Seq::<TramLineState>::empty(),
{
    LineList { items: heapless::Vec::new() }
}

/// `heapless::Vec::as_slice`: the items held, in order; there are never more
/// of them than the capacity.
#[verifier::external_body]
fn lines_as_slice(list: &LineList) -> (items: &[TramLineState])
    ensures
        items@ == line_items(*list),
        items@.len() <= 8,
{
    list.items.as_slice()
}

/// `heapless::Vec::as_mut_slice`: the items held, open to change in place;
/// what the slice holds in the end is what the vector holds.
#[verifier::external_body]
fn lines_as_mut_slice(list: &mut LineList) -> (items: &mut [TramLineState])
    ensures
        items@ == line_items(*old(list)),
        line_items(*final(list)) == final(items)@,
{
    list.items.as_mut_slice()
}

/// `heapless::Vec::push`: below capacity the item is appended; at capacity the
/// vector stays as it is and the item comes back.
#[verifier::external_body]
fn lines_push(list: &mut LineList, item: TramLineState) -> (outcome: Result<(), TramLineState>)
    ensures
        outcome is Ok <==> line_items(*old(list)).len() < 8,
        outcome is Ok ==> line_items(*final(list)) == line_items(*old(list)).push(item),
        outcome is Err ==> outcome->Err_0 == item && line_items(*final(list)) == line_items(
            *old(list),
        ),
{
    list.items.push(item)
}

impl View for LineList {
    type V = Seq<LineModel>;

    open spec fn view(&self) -> Seq<LineModel> {
        line_items(*self).map_values(|item: TramLineState| item@)
    }
}

impl LineList {
    /// The empty list.
    pub fn new() -> (list: Self)
        ensures
            line_items(list) == Seq::<TramLineState>::empty(),
            list@ == Seq::<LineModel>::empty(),
    {
        lines_new()
    }

    /// The number of lines held, never more than eight.
    pub fn len(&self) -> (n: usize)
        ensures
            n == line_items(*self).len(),
            n == self@.len(),
            n <= 8,
    {
        lines_as_slice(self).len()
    }

    /// Whether the list holds nothing.
    pub fn is_empty(&self) -> (empty: bool)
        ensures
            empty == (self@.len() == 0),
    {
        lines_as_slice(self).len() == 0
    }

    /// The line at `index`, if there is one.
    pub fn get(&self, index: usize) -> (item: Option<&TramLineState>)
        ensures
            index < self@.len() ==> item == Some(&line_items(*self)[index as int]),
            index >= self@.len() ==> item is None,
    {
        let items = lines_as_slice(self);
        if index < items.len() {
            Some(&items[index])
        } else {
            None
        }
    }

    /// The line at `index`.
    pub(crate) fn item(&self, index: usize) -> (item: &TramLineState)
        requires
            index < self@.len(),
        ensures
            *item == line_items(*self)[index as int],
            item@ == self@[index as int],
    {
        let items = lines_as_slice(self);
        &items[index]
    }

    /// Appends `item` if fewer than eight lines are held; a full list stays
    /// as it is and hands the item back.
    pub fn push(&mut self, item: TramLineState) -> (outcome: Result<(), TramLineState>)
        ensures
            outcome is Ok <==> old(self)@.len() < 8,
            outcome is Ok ==> line_items(*final(self)) == line_items(*old(self)).push(item)
                && final(self)@ == old(self)@.push(item@),
            outcome is Err ==> outcome->Err_0 == item && line_items(*final(self))
                == line_items(*old(self)) && final(self)@ == old(self)@,
    {
        lines_push(self, item)
    }

    /// The line at `index`, open to change in place; the others stay as
    /// they are.
    pub(crate) fn item_mut(&mut self, index: usize) -> (item: &mut TramLineState)
        requires
            index < old(self)@.len(),
        ensures
            *item == line_items(*old(self))[index as int],
            line_items(*final(self)) == line_items(*old(self)).update(
                index as int,
                *final(item),
            ),
            final(self)@ == old(self)@.update(index as int, final(item)@),
    {
        let items = lines_as_mut_slice(self);
        &mut items[index]
    }
}

impl Clone for PassageList {
    fn clone(&self) -> (copy: Self)
        ensures
            copy@ == self@,
    {
        let mut copy = PassageList::new();
        let n: usize = self.len();
        let mut i: usize = 0;
        while i < n
            invariant
                i <= n == self@.len() <= 3,
                copy@ == self@.take(i as int),
            decreases n - i,
        {
            let _ = copy.push(self.item(i).clone());
            i += 1;
        }
        copy
    }
}

impl PartialEq for PassageList {
    fn eq(&self, other: &Self) -> (same: bool)
    {
        if self.len() != other.len() {
            return false;
        }
        let mut i: usize = 0;
        while i < self.len()
            invariant
                self@.len() == other@.len(),
                i <= self@.len(),
                self@.take(i as int) == other@.take(i as int),
            decreases self@.len() - i,
        {
            if !(self.item(i) == other.item(i)) {
                return false;
            }
            i += 1;
        }
        assert(self@.take(self@.len() as int) == self@);
        assert(other@.take(other@.len() as int) == other@);
        true
    }
}

impl vstd::std_specs::cmp::PartialEqSpecImpl for PassageList {
    open spec fn obeys_eq_spec() -> bool {
        true
    }

    open spec fn eq_spec(&self, other: &Self) -> bool {
        self@ == other@
    }
}

} // verus!
